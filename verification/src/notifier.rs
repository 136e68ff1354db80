use vstd::prelude::*;
use vstd::string::StringSliceAdditionalSpecFns;
use vstd::utf8::{encode_utf8, is_char_boundary};
use crate::error::PiResult;
use crate::text::{decimal, decimal_string, push_char};
use crate::workspace::{api_key_of, APIProvider, Workspace};

verus! {

/// An email to send, with the page it is about and the relevant items found.
#[derive(Debug)]
pub struct EmailNotification {
    pub to: String,
    pub subject: String,
    pub body: String,
    pub url: String,
    pub relevant_items: Vec<String>,
}

/// How to send emails through SendGrid.
#[derive(Debug)]
pub struct EmailConfig {
    pub sendgrid_api_key: String,
    pub from_email: String,
    pub from_name: String,
    pub to_email: String,
}

/// Sends notifications by email, or logs them when email is not set up.
#[derive(Debug)]
pub struct EmailNotifier {
    pub config: EmailConfig,
}

/// The name that notification emails come from.
pub open spec fn monitor_name() -> Seq<char> {
    "Pixlie AI Monitor"@
}

/// The text of an optional string, empty when there is none.
pub open spec fn text_or_empty(o: Option<String>) -> Seq<char> {
    match o {
        Some(s) => s@,
        None => Seq::empty(),
    }
}

/// The string, or an empty one.
fn string_or_empty(o: &Option<String>) -> (r: String)
    ensures
        r@ == text_or_empty(*o),
{
    match o {
        Some(s) => s.clone(),
        None => String::new(),
    }
}

impl EmailConfig {
    /// The email settings of a loaded workspace: its SendGrid key and its
    /// sender and receiver emails, each empty when unset. An error in loading
    /// the workspace is passed on.
    pub fn from_workspace(workspace: PiResult<Workspace>) -> (r: PiResult<EmailConfig>)
        ensures
            match workspace {
                Err(e) => r == Err::<EmailConfig, crate::error::PiError>(e),
                Ok(w) => r matches Ok(c) && c.sendgrid_api_key@ == text_or_empty(
                    api_key_of(w.api_keys@, APIProvider::SendGrid),
                ) && c.from_email@ == text_or_empty(w.sendgrid_sender_email) && c.to_email@
                    == text_or_empty(w.sendgrid_receiver_email) && c.from_name@ == monitor_name(),
            },
    {
        let workspace = match workspace {
            Ok(w) => w,
            Err(e) => {
                return Err(e);
            },
        };
        let sendgrid_api_key = match workspace.get_api_key(&APIProvider::SendGrid) {
            Some(k) => k.clone(),
            None => String::new(),
        };
        Ok(EmailConfig {
            sendgrid_api_key,
            from_email: string_or_empty(&workspace.sendgrid_sender_email),
            from_name: String::from_str("Pixlie AI Monitor"),
            to_email: string_or_empty(&workspace.sendgrid_receiver_email),
        })
    }
}

/// The subject line: a prefix and the objective, cut after its first 50
/// bytes (with "...") when it is longer.
pub open spec fn subject_line(prefix: Seq<char>, objective: Seq<char>, subject: Seq<char>) -> bool {
    exists|c: Seq<char>| cut_after(objective, 50, c) && subject == prefix + c
}

/// True when the UTF-8 form of the text fits in memory, as that of every
/// string does.
pub open spec fn fits_in_memory(s: Seq<char>) -> bool {
    encode_utf8(s).len() <= usize::MAX
}

/// True when the byte at `n` starts a character, or `n` is past the end:
/// where a string may be cut after `n` bytes.
pub open spec fn cuttable(s: Seq<char>, n: int) -> bool {
    encode_utf8(s).len() > n ==> is_char_boundary(encode_utf8(s), n)
}

/// The first `n` bytes of the string, when that is at a character boundary.
fn first_bytes(s: &str, n: usize) -> (r: String)
    requires
        n < encode_utf8(s@).len(),
        is_char_boundary(encode_utf8(s@), n as int),
    ensures
        encode_utf8(r@) == encode_utf8(s@).subrange(0, n as int),
{
    let (head, _tail) = s.split_at(n);
    String::from_str(head)
}

/// True when `r` is the text `s`, cut after its first `n` bytes (with
/// "...") when it is longer.
pub open spec fn cut_after(s: Seq<char>, n: int, r: Seq<char>) -> bool {
    if encode_utf8(s).len() > n {
        exists|p: Seq<char>| encode_utf8(p) == encode_utf8(s).subrange(0, n) && r == p + "..."@
    } else {
        r == s
    }
}

/// The text, cut after `n` bytes with "..." when it is longer.
fn cut_text(s: &str, n: usize) -> (r: String)
    requires
        fits_in_memory(s@),
        cuttable(s@, n as int),
    ensures
        cut_after(s@, n as int, r@),
{
    assert(s.spec_bytes() == encode_utf8(s@));
    if s.len() > n {
        let head = first_bytes(s, n);
        let mut r = head.clone();
        r.append("...");
        assert(encode_utf8(head@) == encode_utf8(s@).subrange(0, n as int) && r@ == head@ + "..."@);
        r
    } else {
        String::from_str(s)
    }
}

/// A subject line: the prefix and the cut objective.
fn subject_with(prefix: &str, objective: &str) -> (r: String)
    requires
        fits_in_memory(objective@),
        cuttable(objective@, 50),
    ensures
        subject_line(prefix@, objective@, r@),
{
    let c = cut_text(objective, 50);
    let mut subject = String::from_str(prefix);
    subject.append(c.as_str());
    assert(cut_after(objective@, 50, c@) && subject@ == prefix@ + c@);
    subject
}

/// The numbered list of items, one per line: "1. first", "2. second", ...
pub open spec fn numbered_items(items: Seq<String>) -> Seq<char>
    decreases items.len(),
{
    if items.len() == 0 {
        Seq::empty()
    } else {
        numbered_items(items.drop_last()) + decimal(items.len()) + ". "@ + items.last()@ + "\n"@
    }
}

/// "Pixlie AI has found <n> new relevant item", with an "s" unless there is
/// exactly one.
pub open spec fn found_line(n: nat) -> Seq<char> {
    let base = "Pixlie AI has found "@ + decimal(n) + " new relevant item"@;
    if n == 1 {
        base
    } else {
        base + "s"@
    }
}

/// The body of a notification about new relevant items.
pub open spec fn content_body(url: Seq<char>, objective: Seq<char>, items: Seq<String>) -> Seq<char> {
    "Hello!\n\n"@ + found_line(items.len()) + " for your objective:\n\n"@ + "**Objective:** "@ + objective + "\n"@ + "**Source:** "@ + url + "\n\n"@
        + "**New Relevant Items:**\n"@ + numbered_items(items) + "\n---\n"@
        + "This email was sent by Pixlie AI content monitoring.\n"@ + "View source: "@ + url + "\n"@
}

/// The body of a notification about a page classified as relevant.
pub open spec fn insight_body(url: Seq<char>, objective: Seq<char>, insight: Seq<char>, reason: Seq<char>) -> Seq<char> {
    "Hello!\n\n"@
        + "Pixlie AI has classified a webpage as relevant to your objective and generated an insight:\n\n"@
        + "**Objective:** "@ + objective + "\n"@ + "**Source:** "@ + url + "\n\n"@ + "**AI Insight:**\n"@ + insight
        + "\n\n"@ + "**Reason for Classification:**\n"@ + reason + "\n\n"@ + "---\n"@
        + "This email was sent by Pixlie AI when relevant content was automatically classified.\n"@
        + "View source: "@ + url + "\n"@
}

/// Appends the numbered lines of the items.
fn push_numbered(out: &mut String, items: &Vec<String>)
    ensures
        final(out)@ == old(out)@ + numbered_items(items@),
{
    let mut i: usize = 0;
    let ghost start = out@;
    while i < items.len()
        invariant
            i <= items@.len(),
            out@ == start + numbered_items(items@.subrange(0, i as int)),
        decreases items@.len() - i,
    {
        let ghost before = out@;
        let mut line = decimal_string((i + 1) as u64);
        line.append(". ");
        line.append(items[i].as_str());
        line.append("\n");
        out.append(line.as_str());
        proof {
            let s1 = items@.subrange(0, i as int + 1);
            assert(s1.drop_last() =~= items@.subrange(0, i as int));
            assert(s1.len() == i + 1);
            assert(s1.last() == items@[i as int]);
            assert(out@ =~= start + numbered_items(s1));
        }
        i = i + 1;
    }
    assert(items@.subrange(0, items@.len() as int) =~= items@);
}

/// The lines that stand for an email when it is logged instead of sent.
pub open spec fn notification_lines(n: EmailNotification, preview: Seq<char>) -> Seq<Seq<char>> {
    seq!["📧 EMAIL NOTIFICATION"@, "   To: "@ + n.to@, "   Subject: "@ + n.subject@, "   URL: "@ + n.url@,
        "   Relevant Items: "@ + decimal(n.relevant_items@.len())]
        + Seq::new(n.relevant_items@.len(), |i: int| "   "@ + decimal((i + 1) as nat) + ". "@ + n.relevant_items@[i]@)
        + seq!["   Body Preview: "@ + preview, "📧 END EMAIL NOTIFICATION"@]
}

/// The preview of a body: the body, cut after its first 200 bytes (with
/// "...") when it is longer.
pub open spec fn body_preview(body: Seq<char>, preview: Seq<char>) -> bool {
    cut_after(body, 200, preview)
}

/// The status of the SendGrid API key: "NOT_SET", or its first three
/// characters and its length in bytes.
pub open spec fn api_key_status(key: Seq<char>) -> Seq<char> {
    if key.len() == 0 {
        "NOT_SET"@
    } else {
        key.subrange(0, if key.len() < 3 {
            key.len() as int
        } else {
            3
        }) + "*** ("@ + decimal(encode_utf8(key).len()) + " chars)"@
    }
}

impl EmailNotifier {
    /// A notifier with the email settings of the loaded workspace; with empty
    /// settings when the workspace could not be loaded.
    pub fn from_workspace(workspace: PiResult<Workspace>) -> (r: EmailNotifier)
        ensures
            match workspace {
                Err(_) => r.config.sendgrid_api_key@.len() == 0 && r.config.from_email@.len() == 0
                    && r.config.to_email@.len() == 0 && r.config.from_name@ == monitor_name(),
                Ok(w) => r.config.sendgrid_api_key@ == text_or_empty(api_key_of(w.api_keys@, APIProvider::SendGrid))
                    && r.config.from_email@ == text_or_empty(w.sendgrid_sender_email) && r.config.to_email@
                    == text_or_empty(w.sendgrid_receiver_email) && r.config.from_name@ == monitor_name(),
            },
    {
        let config = match EmailConfig::from_workspace(workspace) {
            Ok(c) => c,
            Err(_) => EmailConfig {
                sendgrid_api_key: String::new(),
                from_email: String::new(),
                from_name: String::from_str("Pixlie AI Monitor"),
                to_email: String::new(),
            },
        };
        EmailNotifier { config }
    }

    pub fn new_with_config(config: EmailConfig) -> (r: Self)
        ensures
            r.config == config,
    {
        Self { config }
    }

    /// The lines to log for a notification that is not sent by email.
    pub fn log_notification(&self, notification: &EmailNotification) -> (r: Vec<String>)
        requires
            fits_in_memory(notification.body@),
            cuttable(notification.body@, 200),
        ensures
            exists|preview: Seq<char>| {
                &&& body_preview(notification.body@, preview)
                &&& r@.map_values(|s: String| s@) == notification_lines(*notification, preview)
            },
    {
        let mut lines: Vec<String> = Vec::new();
        lines.push(String::from_str("📧 EMAIL NOTIFICATION"));
        let mut to = String::from_str("   To: ");
        to.append(notification.to.as_str());
        lines.push(to);
        let mut subject = String::from_str("   Subject: ");
        subject.append(notification.subject.as_str());
        lines.push(subject);
        let mut url = String::from_str("   URL: ");
        url.append(notification.url.as_str());
        lines.push(url);
        let mut count = String::from_str("   Relevant Items: ");
        let n = decimal_string(notification.relevant_items.len() as u64);
        count.append(n.as_str());
        lines.push(count);
        let ghost head = lines@.map_values(|s: String| s@);
        let items = &notification.relevant_items;
        let mut i: usize = 0;
        while i < items.len()
            invariant
                i <= items@.len(),
                lines@.len() == 5 + i,
                forall|k: int| 0 <= k < 5 ==> (#[trigger] lines@[k])@ == head[k],
                forall|k: int| 0 <= k < i ==> (#[trigger] lines@[5 + k])@ == "   "@ + decimal((k + 1) as nat) + ". "@ + items@[k]@,
            decreases items@.len() - i,
        {
            let mut line = String::from_str("   ");
            let d = decimal_string((i + 1) as u64);
            line.append(d.as_str());
            line.append(". ");
            line.append(items[i].as_str());
            lines.push(line);
            i = i + 1;
        }
        let preview = cut_text(notification.body.as_str(), 200);
        let mut preview_line = String::from_str("   Body Preview: ");
        preview_line.append(preview.as_str());
        lines.push(preview_line);
        lines.push(String::from_str("📧 END EMAIL NOTIFICATION"));
        proof {
            let want = notification_lines(*notification, preview@);
            let got = lines@.map_values(|s: String| s@);
            let m = items@.len();
            assert(got.len() == want.len());
            assert forall|k: int| 0 <= k < want.len() implies got[k] == want[k] by {
                if k < 5 {
                    assert(got[k] == head[k]);
                } else if k < 5 + m {
                    assert(lines@[5 + (k - 5)] == lines@[k]);
                } else {
                }
            }
            assert(got =~= want);
            assert(body_preview(notification.body@, preview@));
        }
        lines
    }

    /// A notification about new relevant items found on a page.
    pub fn create_content_change_notification(&self, to_email: &str, url: &str, objective: &str, relevant_items: Vec<String>) -> (r: EmailNotification)
        requires
            fits_in_memory(objective@),
            cuttable(objective@, 50),
        ensures
            r.to@ == to_email@,
            r.url@ == url@,
            r.relevant_items@ == relevant_items@,
            subject_line("🔍 New relevant content found: "@, objective@, r.subject@),
            r.body@ == content_body(url@, objective@, relevant_items@),
    {
        let subject = subject_with("🔍 New relevant content found: ", objective);
        let body = self.format_email_body(url, objective, &relevant_items);
        EmailNotification {
            to: String::from_str(to_email),
            subject,
            body,
            url: String::from_str(url),
            relevant_items,
        }
    }

    /// A notification about a page that was classified as relevant, with the
    /// insight drawn from it.
    pub fn create_insight_notification(&self, to_email: &str, url: &str, objective: &str, insight: &str, reason: &str) -> (r: EmailNotification)
        requires
            fits_in_memory(objective@),
            cuttable(objective@, 50),
        ensures
            r.to@ == to_email@,
            r.url@ == url@,
            r.relevant_items@.len() == 1 && r.relevant_items@[0]@ == insight@,
            subject_line("🎯 Relevant webpage classified: "@, objective@, r.subject@),
            r.body@ == insight_body(url@, objective@, insight@, reason@),
    {
        let subject = subject_with("🎯 Relevant webpage classified: ", objective);
        let body = self.format_insight_email_body(url, objective, insight, reason);
        let mut items: Vec<String> = Vec::new();
        items.push(String::from_str(insight));
        EmailNotification {
            to: String::from_str(to_email),
            subject,
            body,
            url: String::from_str(url),
            relevant_items: items,
        }
    }

    /// The body of a notification about new relevant items.
    pub fn format_email_body(&self, url: &str, objective: &str, relevant_items: &Vec<String>) -> (r: String)
        ensures
            r@ == content_body(url@, objective@, relevant_items@),
    {
        let mut found = String::from_str("Pixlie AI has found ");
        let n = decimal_string(relevant_items.len() as u64);
        found.append(n.as_str());
        found.append(" new relevant item");
        if relevant_items.len() != 1 {
            found.append("s");
        }
        let mut body = String::from_str("Hello!\n\n");
        body.append(found.as_str());
        body.append(" for your objective:\n\n");
        body.append("**Objective:** ");
        body.append(objective);
        body.append("\n");
        body.append("**Source:** ");
        body.append(url);
        body.append("\n\n");
        body.append("**New Relevant Items:**\n");
        push_numbered(&mut body, relevant_items);
        body.append("\n---\n");
        body.append("This email was sent by Pixlie AI content monitoring.\n");
        body.append("View source: ");
        body.append(url);
        body.append("\n");
        body
    }

    /// The body of a notification about a page classified as relevant.
    pub fn format_insight_email_body(&self, url: &str, objective: &str, insight: &str, reason: &str) -> (r: String)
        ensures
            r@ == insight_body(url@, objective@, insight@, reason@),
    {
        let mut body = String::from_str("Hello!\n\n");
        body.append(
            "Pixlie AI has classified a webpage as relevant to your objective and generated an insight:\n\n",
        );
        body.append("**Objective:** ");
        body.append(objective);
        body.append("\n");
        body.append("**Source:** ");
        body.append(url);
        body.append("\n\n");
        body.append("**AI Insight:**\n");
        body.append(insight);
        body.append("\n\n");
        body.append("**Reason for Classification:**\n");
        body.append(reason);
        body.append("\n\n");
        body.append("---\n");
        body.append("This email was sent by Pixlie AI when relevant content was automatically classified.\n");
        body.append("View source: ");
        body.append(url);
        body.append("\n");
        assert(body@ =~= insight_body(url@, objective@, insight@, reason@));
        body
    }

    /// Email can be sent when the API key and both addresses are set.
    pub fn is_configured(&self) -> (r: bool)
        ensures
            r == (self.config.sendgrid_api_key@.len() > 0 && self.config.from_email@.len() > 0
                && self.config.to_email@.len() > 0),
    {
        !self.config.sendgrid_api_key.as_str().is_empty() && !self.config.from_email.as_str().is_empty()
            && !self.config.to_email.as_str().is_empty()
    }

    /// A line that describes the email settings, for debugging.
    pub fn get_config_status(&self) -> (r: String)
        requires
            fits_in_memory(self.config.sendgrid_api_key@),
        ensures
            r@ == "SendGrid API Key: "@ + api_key_status(self.config.sendgrid_api_key@) + ", From: "@
                + self.config.from_name@ + " <"@ + (if self.config.from_email@.len() == 0 {
                "NOT_SET"@
            } else {
                self.config.from_email@
            }) + ">"@,
    {
        let key = self.config.sendgrid_api_key.as_str();
        let mut key_status = String::new();
        if key.is_empty() {
            key_status.append("NOT_SET");
        } else {
            let n = key.unicode_len();
            let take = if n < 3 {
                n
            } else {
                3
            };
            let mut k: usize = 0;
            while k < take
                invariant
                    take <= n,
                    n == key@.len(),
                    k <= take,
                    key_status@ == key@.subrange(0, k as int),
                decreases take - k,
            {
                push_char(&mut key_status, key.get_char(k));
                k = k + 1;
                assert(key_status@ =~= key@.subrange(0, k as int));
            }
            key_status.append("*** (");
            assert(key.spec_bytes() == encode_utf8(key@));
            let len = decimal_string(key.len() as u64);
            assert(len@ == decimal(encode_utf8(key@).len()));
            key_status.append(len.as_str());
            key_status.append(" chars)");
            assert(key@.subrange(0, take as int) == key@.subrange(0, if key@.len() < 3 { key@.len() as int } else { 3 }));
        }
        assert(key_status@ =~= api_key_status(self.config.sendgrid_api_key@));
        let mut status = String::from_str("SendGrid API Key: ");
        status.append(key_status.as_str());
        status.append(", From: ");
        status.append(self.config.from_name.as_str());
        status.append(" <");
        if self.config.from_email.as_str().is_empty() {
            status.append("NOT_SET");
        } else {
            status.append(self.config.from_email.as_str());
        }
        status.append(">");
        status
    }
}

} // verus!

verus! {

use crate::services::anthropic::{json_quote, json_quoted};

/// The URL of the SendGrid API that sends mail.
pub const SENDGRID_MAIL_URL: &'static str = "https://api.sendgrid.com/v3/mail/send";

/// The JSON body of a SendGrid request for a notification, keys in
/// alphabetical order as `serde_json` writes them: the plain text content,
/// the sender, the recipient and the subject.
pub open spec fn sendgrid_body(from_email: Seq<char>, from_name: Seq<char>, n_to: Seq<char>, subject: Seq<char>, body: Seq<char>) -> Seq<char> {
    "{\"content\":[{\"type\":\"text/plain\",\"value\":"@ + json_quoted(body) + "}],\"from\":{\"email\":"@
        + json_quoted(from_email) + ",\"name\":"@ + json_quoted(from_name)
        + "},\"personalizations\":[{\"to\":[{\"email\":"@ + json_quoted(n_to) + "}]}],\"subject\":"@
        + json_quoted(subject) + "}"@
}

impl EmailNotifier {
    /// Whether a notification is sent by email: only when a SendGrid API key
    /// is set up; otherwise it is logged.
    pub fn sends_email(&self) -> (r: bool)
        ensures
            r == (self.config.sendgrid_api_key@.len() > 0),
    {
        self.config.sendgrid_api_key.unicode_len() > 0
    }

    /// The JSON body of the SendGrid request for a notification.
    pub fn sendgrid_payload(&self, notification: &EmailNotification) -> (r: String)
        ensures
            r@ == sendgrid_body(
                self.config.from_email@,
                self.config.from_name@,
                notification.to@,
                notification.subject@,
                notification.body@,
            ),
    {
        let mut s = String::from_str("{\"content\":[{\"type\":\"text/plain\",\"value\":");
        let b = json_quote(notification.body.as_str());
        s.append(b.as_str());
        s.append("}],\"from\":{\"email\":");
        let fe = json_quote(self.config.from_email.as_str());
        s.append(fe.as_str());
        s.append(",\"name\":");
        let fnm = json_quote(self.config.from_name.as_str());
        s.append(fnm.as_str());
        s.append("},\"personalizations\":[{\"to\":[{\"email\":");
        let to = json_quote(notification.to.as_str());
        s.append(to.as_str());
        s.append("}]}],\"subject\":");
        let sub = json_quote(notification.subject.as_str());
        s.append(sub.as_str());
        s.append("}");
        s
    }

    /// The value of the `Authorization` header of a SendGrid request.
    pub fn sendgrid_authorization(&self) -> (r: String)
        ensures
            r@ == "Bearer "@ + self.config.sendgrid_api_key@,
    {
        let mut s = String::from_str("Bearer ");
        s.append(self.config.sendgrid_api_key.as_str());
        s
    }
}

} // verus!
