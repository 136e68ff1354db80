use vstd::prelude::*;
use crate::error::{PiError, PiResult};
use crate::fetch::{FetchRequest, FetchRequestView, HttpMethod};
use crate::text::{has_prefix, has_suffix, push_char, starts_with, str_eq};

verus! {

/// The URL of Anthropic's messages API.
pub const MESSAGES_URL: &'static str = "https://api.anthropic.com/v1/messages";

/// A reply of the messages API.
#[derive(Debug)]
pub struct ClaudeResponse {
    pub id: String,
    pub content: Vec<ClaudeResponseContent>,
}

/// One block of a reply.
#[derive(Debug)]
pub struct ClaudeResponseContent {
    pub content_type: String,
    pub text: String,
}

/// A message of a chat request.
#[derive(Debug)]
pub struct ClaudeChatMessage {
    pub role: String,
    pub content: String,
}

/// A piece of content given to the model, with its type.
#[derive(Debug)]
pub struct SearchTermPromptInputContent {
    pub content_type: String,
    pub content: String,
}

/// A search term that the model returns.
#[derive(Debug)]
pub struct SearchTermPromptOutputItem(pub String);

/// The input of a search term prompt: a topic and content.
#[derive(Debug)]
pub struct SearchTermPromptInput {
    pub topic: String,
    pub content: Vec<SearchTermPromptInputContent>,
}

/// Sends prompts to Anthropic's models.
pub struct Anthropic;

/// The JSON escape of one character, as `serde_json` writes it in a string:
/// quote and backslash escaped, control characters as `\b`, `\t`, `\n`,
/// `\f`, `\r` or `\u00XX` (lowercase hex), others as they are.
pub open spec fn json_escape(c: char) -> Seq<char> {
    if c == '"' {
        seq!['\\', '"']
    } else if c == '\\' {
        seq!['\\', '\\']
    } else if c == '\u{8}' {
        seq!['\\', 'b']
    } else if c == '\t' {
        seq!['\\', 't']
    } else if c == '\n' {
        seq!['\\', 'n']
    } else if c == '\u{c}' {
        seq!['\\', 'f']
    } else if c == '\r' {
        seq!['\\', 'r']
    } else if (c as u32) < 0x20 {
        seq!['\\', 'u', '0', '0', hex_digit((c as u32) / 16), hex_digit((c as u32) % 16)]
    } else {
        seq![c]
    }
}

/// A lowercase hexadecimal digit.
pub open spec fn hex_digit(d: u32) -> char {
    if d < 10 {
        (48 + d) as char
    } else {
        (87 + d) as char
    }
}

/// The escaped characters of a string.
pub open spec fn json_escaped(s: Seq<char>) -> Seq<char>
    decreases s.len(),
{
    if s.len() == 0 {
        Seq::empty()
    } else {
        json_escaped(s.drop_last()) + json_escape(s.last())
    }
}

/// A string as a JSON string literal, as `serde_json::to_string` writes it.
pub open spec fn json_quoted(s: Seq<char>) -> Seq<char> {
    seq!['"'] + json_escaped(s) + seq!['"']
}

/// Appends the JSON escape of a character.
fn push_json_escape(out: &mut String, c: char)
    ensures
        final(out)@ == old(out)@ + json_escape(c),
{
    if c == '"' {
        push_char(out, '\\');
        push_char(out, '"');
    } else if c == '\\' {
        push_char(out, '\\');
        push_char(out, '\\');
    } else if c == '\u{8}' {
        push_char(out, '\\');
        push_char(out, 'b');
    } else if c == '\t' {
        push_char(out, '\\');
        push_char(out, 't');
    } else if c == '\n' {
        push_char(out, '\\');
        push_char(out, 'n');
    } else if c == '\u{c}' {
        push_char(out, '\\');
        push_char(out, 'f');
    } else if c == '\r' {
        push_char(out, '\\');
        push_char(out, 'r');
    } else if (c as u32) < 0x20 {
        let v = c as u32;
        let hi = v / 16;
        let lo = v % 16;
        push_char(out, '\\');
        push_char(out, 'u');
        push_char(out, '0');
        push_char(out, '0');
        let h: char = if hi < 10 {
            (48 + hi as u8) as char
        } else {
            (87 + hi as u8) as char
        };
        let l: char = if lo < 10 {
            (48 + lo as u8) as char
        } else {
            (87 + lo as u8) as char
        };
        assert(h == hex_digit(hi));
        assert(l == hex_digit(lo));
        push_char(out, h);
        push_char(out, l);
    } else {
        push_char(out, c);
    }
    assert(out@ =~= old(out)@ + json_escape(c));
}

/// The string as a JSON string literal.
pub fn json_quote(s: &str) -> (r: String)
    ensures
        r@ == json_quoted(s@),
{
    let n = s.unicode_len();
    let mut out = String::new();
    push_char(&mut out, '"');
    let mut i: usize = 0;
    while i < n
        invariant
            n == s@.len(),
            i <= n,
            out@ == seq!['"'] + json_escaped(s@.subrange(0, i as int)),
        decreases n - i,
    {
        let c = s.get_char(i);
        push_json_escape(&mut out, c);
        proof {
            let p = s@.subrange(0, i as int + 1);
            assert(p.drop_last() =~= s@.subrange(0, i as int));
            assert(p.last() == c);
            assert(out@ =~= seq!['"'] + json_escaped(p));
        }
        i = i + 1;
    }
    push_char(&mut out, '"');
    assert(s@.subrange(0, n as int) =~= s@);
    assert(out@ =~= json_quoted(s@));
    out
}

/// The body of a messages request to the model with the prompt as the one
/// user message, and at most 1024 tokens in the reply.
pub open spec fn chat_body(model: Seq<char>, prompt: Seq<char>) -> Seq<char> {
    "{\"model\":"@ + json_quoted(model) + ",\"max_tokens\":1024,\"messages\":[{\"role\":\"user\",\"content\":"@
        + json_quoted(prompt) + "}]}"@
}

/// The text with a prefix taken off as often as it begins with it.
pub open spec fn strip_prefix_repeatedly(s: Seq<char>, p: Seq<char>) -> Seq<char>
    decreases s.len(),
{
    if p.len() > 0 && has_prefix(s, p) {
        strip_prefix_repeatedly(s.subrange(p.len() as int, s.len() as int), p)
    } else {
        s
    }
}

/// The text with a suffix taken off as often as it ends with it.
pub open spec fn strip_suffix_repeatedly(s: Seq<char>, p: Seq<char>) -> Seq<char>
    decreases s.len(),
{
    if p.len() > 0 && has_suffix(s, p) {
        strip_suffix_repeatedly(s.subrange(0, s.len() - p.len()), p)
    } else {
        s
    }
}

/// The JSON inside a reply text: without the Markdown code fence around it,
/// when there is one.
pub open spec fn reply_payload(text: Seq<char>) -> Seq<char> {
    if has_prefix(text, "```json"@) {
        strip_suffix_repeatedly(strip_prefix_repeatedly(text, "```json"@), "```"@)
    } else if has_prefix(text, "```"@) {
        strip_suffix_repeatedly(strip_prefix_repeatedly(text, "```"@), "```"@)
    } else {
        text
    }
}

/// Takes the prefix off as often as the text begins with it.
fn trim_start_matches(s: &Vec<char>, p: &Vec<char>) -> (r: Vec<char>)
    requires
        p@.len() > 0,
    ensures
        r@ == strip_prefix_repeatedly(s@, p@),
{
    let mut start: usize = 0;
    assert(s@.subrange(0, s@.len() as int) =~= s@);
    while p.len() <= s.len() - start && crate::text::chars_occur_at(s, p, start)
        invariant
            start <= s@.len(),
            p@.len() > 0,
            strip_prefix_repeatedly(s@.subrange(start as int, s@.len() as int), p@) == strip_prefix_repeatedly(s@, p@),
        decreases s@.len() - start,
    {
        proof {
            let rest = s@.subrange(start as int, s@.len() as int);
            assert(has_prefix(rest, p@)) by {
                assert(rest.subrange(0, p@.len() as int) =~= s@.subrange(start as int, start + p@.len()));
            }
            assert(rest.subrange(p@.len() as int, rest.len() as int) =~= s@.subrange(start + p@.len(), s@.len() as int));
        }
        start = start + p.len();
    }
    proof {
        let rest = s@.subrange(start as int, s@.len() as int);
        if has_prefix(rest, p@) {
            assert(rest.subrange(0, p@.len() as int) =~= s@.subrange(start as int, start + p@.len()));
        }
    }
    let mut r: Vec<char> = Vec::new();
    let mut i = start;
    while i < s.len()
        invariant
            start <= i <= s@.len(),
            r@ == s@.subrange(start as int, i as int),
        decreases s@.len() - i,
    {
        r.push(s[i]);
        i = i + 1;
        assert(r@ =~= s@.subrange(start as int, i as int));
    }
    r
}

/// Takes the suffix off as often as the text ends with it.
fn trim_end_matches(s: &Vec<char>, p: &Vec<char>) -> (r: Vec<char>)
    requires
        p@.len() > 0,
    ensures
        r@ == strip_suffix_repeatedly(s@, p@),
{
    let mut end: usize = s.len();
    assert(s@.subrange(0, s@.len() as int) =~= s@);
    while end >= p.len() && crate::text::chars_occur_at(s, p, end - p.len())
        invariant
            end <= s@.len(),
            p@.len() > 0,
            strip_suffix_repeatedly(s@.subrange(0, end as int), p@) == strip_suffix_repeatedly(s@, p@),
        decreases end,
    {
        proof {
            let rest = s@.subrange(0, end as int);
            assert(has_suffix(rest, p@)) by {
                assert(rest.subrange(rest.len() - p@.len(), rest.len() as int) =~= s@.subrange(end - p@.len(), end as int));
            }
            assert(rest.subrange(0, rest.len() - p@.len()) =~= s@.subrange(0, end - p@.len()));
        }
        end = end - p.len();
    }
    proof {
        let rest = s@.subrange(0, end as int);
        if has_suffix(rest, p@) {
            assert(rest.subrange(rest.len() - p@.len(), rest.len() as int) =~= s@.subrange(end - p@.len(), end as int));
        }
        assert(s@.subrange(0, s@.len() as int) =~= s@);
    }
    let mut r: Vec<char> = Vec::new();
    let mut i: usize = 0;
    while i < end
        invariant
            end <= s@.len(),
            i <= end,
            r@ == s@.subrange(0, i as int),
        decreases end - i,
    {
        r.push(s[i]);
        i = i + 1;
        assert(r@ =~= s@.subrange(0, i as int));
    }
    r
}

/// True for the request that asks the model for a reply to the prompt, as
/// the given node and with the given API key: a POST of `chat_body` to the
/// messages URL with the content type, API version and key as headers.
pub open spec fn is_messages_request(req: FetchRequestView, node_id: u32, key: String, model: Seq<char>, prompt: Seq<char>) -> bool {
    &&& req.requesting_node_id == node_id
    &&& req.method == HttpMethod::Post
    &&& req.url == MESSAGES_URL@
    &&& req.headers.len() == 3
    &&& req.headers[0].0@ == "content-type"@ && req.headers[0].1@ == "application/json"@
    &&& req.headers[1].0@ == "anthropic-version"@ && req.headers[1].1@ == "2023-06-01"@
    &&& req.headers[2].0@ == "x-api-key"@ && req.headers[2].1 == key
    &&& req.body matches Some(b) && b@ == chat_body(model, prompt)
}

impl Anthropic {
    /// A request to the messages API of the given model with the prompt as
    /// the one user message, for the given node and API key. Without a key
    /// the request is refused.
    pub fn get_request(prompt: &str, calling_node_id: u32, api_key: Option<String>, model: &str) -> (r: PiResult<FetchRequest>)
        ensures
            match api_key {
                None => r matches Err(e) && e is ApiKeyNotConfigured && e.message() == "Anthropic"@,
                Some(key) => r matches Ok(req) && is_messages_request(req@, calling_node_id, key, model@, prompt@),
            },
    {
        let key = match api_key {
            Some(k) => k,
            None => {
                return Err(PiError::ApiKeyNotConfigured(String::from_str("Anthropic")));
            },
        };
        let mut request = FetchRequest::new(calling_node_id, MESSAGES_URL);
        request.method = HttpMethod::Post;
        let mut headers: Vec<(String, String)> = Vec::new();
        headers.push((String::from_str("content-type"), String::from_str("application/json")));
        headers.push((String::from_str("anthropic-version"), String::from_str("2023-06-01")));
        headers.push((String::from_str("x-api-key"), key));
        request.headers = headers;
        let mut body = String::from_str("{\"model\":");
        let quoted_model = json_quote(model);
        body.append(quoted_model.as_str());
        body.append(",\"max_tokens\":1024,\"messages\":[{\"role\":\"user\",\"content\":");
        let quoted = json_quote(prompt);
        body.append(quoted.as_str());
        body.append("}]}");
        request.body = Some(body);
        Ok(request)
    }

    /// The JSON that a reply of the model carries: the text of its one block,
    /// without the Markdown code fence around it. A reply with another number
    /// of blocks is an error that names the model.
    pub fn extract_payload(response: &ClaudeResponse, model: &str) -> (r: PiResult<String>)
        ensures
            match r {
                Ok(p) => response.content@.len() == 1 && p@ == reply_payload(response.content@[0].text@),
                Err(e) => e is CouldNotParseResponseFromLLM && e.message() == model@ && response.content@.len() != 1,
            },
    {
        if response.content.len() != 1 {
            return Err(PiError::CouldNotParseResponseFromLLM(String::from_str(model)));
        }
        let text = response.content[0].text.as_str();
        let chars = crate::text::chars_of(text);
        let fence_json = crate::text::chars_of("```json");
        let fence = crate::text::chars_of("```");
        proof {
            reveal_strlit("```json");
            reveal_strlit("```");
        }
        if starts_with(text, "```json") {
            let a = trim_start_matches(&chars, &fence_json);
            let b = trim_end_matches(&a, &fence);
            Ok(crate::text::string_of_chars(b.as_slice()))
        } else if starts_with(text, "```") {
            let a = trim_start_matches(&chars, &fence);
            let b = trim_end_matches(&a, &fence);
            Ok(crate::text::string_of_chars(b.as_slice()))
        } else {
            Ok(String::from_str(text))
        }
    }
}

} // verus!

verus! {

use crate::engine::fetching::{fetch_api_outcome, fetch_effect};
use crate::engine::graph::Engine;
use crate::engine::labels::NodeId;
use crate::error::PiErrorKind;

/// One way a prompt is sent to the model as node `id`: `req` is the request
/// for it, handed to `fetch_api`.
pub open spec fn prompt_sent_via(e0: Engine, e1: Engine, id: NodeId, key: String, model: Seq<char>, prompt: Seq<char>, req: FetchRequestView, r: PiResult<()>) -> bool {
    is_messages_request(req, id, key, model, prompt) && fetch_effect(&e0, &e1, req, fetch_api_outcome(&e0, req), r)
}

/// What sending a prompt to the model as node `id` does: without an API key
/// nothing is sent; with one, the request for the prompt is handed to
/// `fetch_api`.
pub open spec fn prompt_sent(e0: Engine, e1: Engine, id: NodeId, api_key: Option<String>, model: Seq<char>, prompt: Seq<char>, r: PiResult<()>) -> bool {
    match api_key {
        None => r matches Err(x) && x.kind() == PiErrorKind::ApiKeyNotConfigured && x.message() == "Anthropic"@ && e1 == e0,
        Some(k) => exists|req: FetchRequestView| #[trigger] prompt_sent_via(e0, e1, id, k, model, prompt, req, r),
    }
}

impl Anthropic {
    /// Sends a prompt to the model as the given node.
    pub fn send_prompt(engine: &mut Engine, node_id: NodeId, prompt: &str, api_key: Option<String>, model: &str) -> (r: PiResult<()>)
        requires
            old(engine).wf(),
        ensures
            final(engine).wf(),
            prompt_sent(*old(engine), *final(engine), node_id, api_key, model@, prompt@, r),
    {
        let ghost e0 = *engine;
        let ghost key = api_key;
        let request = match Self::get_request(prompt, node_id, api_key, model) {
            Ok(req) => req,
            Err(e) => {
                return Err(e);
            },
        };
        let ghost rv = request@;
        let r = engine.fetch_api(request);
        assert(prompt_sent_via(e0, *engine, node_id, key->0, model@, prompt@, rv, r));
        r
    }
}

} // verus!
