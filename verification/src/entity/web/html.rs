use vstd::prelude::*;
use ego_tree::iter::Edge;
use scraper::{Html, Node};
use crate::engine::labels::NodeLabel;
use crate::text::{has_prefix, push_char, starts_with, str_eq};

verus! {

/// One step of a walk through a parsed HTML document, in document order:
/// entering an element (its name, then one step per attribute), a text
/// node, or another node (a comment, say), and leaving an element or
/// another node.
#[derive(Debug)]
pub enum HtmlEvent {
    OpenElement(String),
    Attr(String, String),
    Text(String),
    OpenOther,
    CloseElement,
    CloseOther,
}

/// The walk through the document that `scraper` parses from the text, from
/// its root element.
pub uninterp spec fn html_events_of(doc: Seq<char>) -> Seq<HtmlEvent>;

/// Parses the text with `scraper::Html::parse_document` and walks its root
/// element with `ego_tree`'s `traverse`, which opens and closes each node in
/// document order; each element's attributes follow its opening. The result
/// is named `html_events_of`; nothing more is said of it.
#[verifier::external_body]
pub(crate) fn html_events(doc: &str) -> (r: Vec<HtmlEvent>)
    ensures
        r@ == html_events_of(doc@),
{
    let mut r = Vec::new();
    for edge in Html::parse_document(doc).root_element().traverse() {
        match edge {
            Edge::Open(n) => match n.value() {
                Node::Element(e) => {
                    r.push(HtmlEvent::OpenElement(e.name().to_string()));
                    r.extend(e.attrs().map(|(k, v)| HtmlEvent::Attr(k.to_string(), v.to_string())));
                },
                Node::Text(t) => r.push(HtmlEvent::Text(t.to_string())),
                _ => r.push(HtmlEvent::OpenOther),
            },
            Edge::Close(n) => r.push(match n.value() { Node::Element(_) => HtmlEvent::CloseElement, _ => HtmlEvent::CloseOther }),
        }
    }
    r
}

/// True for the characters that Unicode calls white space, as
/// `char::is_whitespace` does.
pub open spec fn is_ws(c: char) -> bool {
    ||| ('\t' <= c && c <= '\r')
    ||| c == ' '
    ||| c == '\u{85}'
    ||| c == '\u{a0}'
    ||| c == '\u{1680}'
    ||| ('\u{2000}' <= c && c <= '\u{200a}')
    ||| c == '\u{2028}'
    ||| c == '\u{2029}'
    ||| c == '\u{202f}'
    ||| c == '\u{205f}'
    ||| c == '\u{3000}'
}

/// Whether the character is white space.
pub fn is_whitespace(c: char) -> (r: bool)
    ensures
        r == is_ws(c),
{
    ('\t' <= c && c <= '\r') || c == ' ' || c == '\u{85}' || c == '\u{a0}' || c == '\u{1680}' || ('\u{2000}' <= c
        && c <= '\u{200a}') || c == '\u{2028}' || c == '\u{2029}' || c == '\u{202f}' || c == '\u{205f}' || c
        == '\u{3000}'
}

/// The words of a text: its longest runs of characters that are not white
/// space, with single spaces between them.
pub open spec fn cleaned(s: Seq<char>) -> Seq<char>
    decreases s.len(),
{
    if s.len() == 0 {
        Seq::empty()
    } else {
        let prev = cleaned(s.drop_last());
        let c = s.last();
        if is_ws(c) {
            prev
        } else if s.len() > 1 && !is_ws(s[s.len() - 2]) {
            prev.push(c)
        } else if prev.len() == 0 {
            seq![c]
        } else {
            prev.push(' ').push(c)
        }
    }
}

/// The text with its white space trimmed and each run of white space inside
/// it made a single space.
pub fn clean_text(text: &str) -> (r: String)
    ensures
        r@ == cleaned(text@),
{
    let n = text.unicode_len();
    let mut out = String::new();
    let mut i: usize = 0;
    while i < n
        invariant
            n == text@.len(),
            i <= n,
            out@ == cleaned(text@.subrange(0, i as int)),
        decreases n - i,
    {
        let c = text.get_char(i);
        let ghost p = text@.subrange(0, i as int + 1);
        proof {
            assert(p.drop_last() =~= text@.subrange(0, i as int));
            assert(p.last() == c);
        }
        if !is_whitespace(c) {
            if i > 0 && !is_whitespace(text.get_char(i - 1)) {
                assert(p[p.len() - 2] == text@[i - 1]);
                push_char(&mut out, c);
            } else if out.unicode_len() == 0 {
                push_char(&mut out, c);
                assert(out@ =~= seq![c]);
            } else {
                assert(i > 0 ==> p[p.len() - 2] == text@[i - 1]);
                push_char(&mut out, ' ');
                push_char(&mut out, c);
            }
        }
        i = i + 1;
    }
    assert(text@.subrange(0, n as int) =~= text@);
    out
}

/// The index of the first character that is not white space, at or after `i`.
pub open spec fn first_non_ws(s: Seq<char>, i: int) -> int
    decreases s.len() - i,
{
    if i >= s.len() || i < 0 {
        s.len() as int
    } else if !is_ws(s[i]) {
        i
    } else {
        first_non_ws(s, i + 1)
    }
}

/// The index just past the last character before `j` that is not white
/// space.
pub open spec fn last_non_ws_end(s: Seq<char>, j: int) -> int
    decreases j,
{
    if j <= 0 || j > s.len() {
        0
    } else if !is_ws(s[j - 1]) {
        j
    } else {
        last_non_ws_end(s, j - 1)
    }
}

/// The text without white space at either end.
pub open spec fn trimmed(s: Seq<char>) -> Seq<char> {
    let a = first_non_ws(s, 0);
    if a >= s.len() {
        Seq::empty()
    } else {
        s.subrange(a, last_non_ws_end(s, s.len() as int))
    }
}

proof fn lemma_last_non_ws_bounds(s: Seq<char>, j: int, a: int)
    requires
        0 <= a < j <= s.len(),
        !is_ws(s[a]),
    ensures
        a < last_non_ws_end(s, j) <= j,
    decreases j,
{
    if !is_ws(s[j - 1]) {
    } else {
        lemma_last_non_ws_bounds(s, j - 1, a);
    }
}

proof fn lemma_first_non_ws_bounds(s: Seq<char>, i: int)
    requires
        0 <= i <= s.len(),
    ensures
        i <= first_non_ws(s, i) <= s.len(),
        first_non_ws(s, i) < s.len() ==> !is_ws(s[first_non_ws(s, i)]),
    decreases s.len() - i,
{
    if i < s.len() && is_ws(s[i]) {
        lemma_first_non_ws_bounds(s, i + 1);
    }
}

/// The text without white space at either end.
pub fn trim(text: &str) -> (r: String)
    ensures
        r@ == trimmed(text@),
{
    let n = text.unicode_len();
    let mut a: usize = 0;
    while a < n && is_whitespace(text.get_char(a))
        invariant
            n == text@.len(),
            a <= n,
            first_non_ws(text@, 0) == first_non_ws(text@, a as int),
        decreases n - a,
    {
        a = a + 1;
    }
    proof {
        lemma_first_non_ws_bounds(text@, a as int);
    }
    if a == n {
        return String::new();
    }
    let mut b: usize = n;
    proof {
        lemma_last_non_ws_bounds(text@, n as int, a as int);
    }
    while b > a && is_whitespace(text.get_char(b - 1))
        invariant
            n == text@.len(),
            a < n,
            a < b <= n,
            !is_ws(text@[a as int]),
            last_non_ws_end(text@, n as int) == last_non_ws_end(text@, b as int),
        decreases b,
    {
        b = b - 1;
    }
    assert(!is_ws(text@[b - 1]));
    assert(last_non_ws_end(text@, b as int) == b);
    let mut out = String::new();
    let mut i = a;
    while i < b
        invariant
            a <= i <= b <= n,
            n == text@.len(),
            out@ == text@.subrange(a as int, i as int),
        decreases b - i,
    {
        push_char(&mut out, text.get_char(i));
        i = i + 1;
        assert(out@ =~= text@.subrange(a as int, i as int));
    }
    out
}

/// True for events that open a node.
pub open spec fn opens(e: HtmlEvent) -> bool {
    e is OpenElement || e is Text || e is OpenOther
}

/// True for events that close a node.
pub open spec fn closes(e: HtmlEvent) -> bool {
    e is CloseElement || e is CloseOther
}

/// The index of the event that closes the node open at depth `d` when the
/// walk reaches `i`; the end of the walk when none does.
pub open spec fn close_from(ev: Seq<HtmlEvent>, i: int, d: nat) -> int
    decreases ev.len() - i,
{
    if i < 0 || i >= ev.len() {
        ev.len() as int
    } else if opens(ev[i]) {
        close_from(ev, i + 1, d + 1)
    } else if closes(ev[i]) {
        if d <= 1 {
            i
        } else {
            close_from(ev, i + 1, (d - 1) as nat)
        }
    } else {
        close_from(ev, i + 1, d)
    }
}

/// The index of the event that closes the node opened at `i`, within
/// `[i, e)`.
pub open spec fn node_end(ev: Seq<HtmlEvent>, i: int, e: int) -> int {
    let c = close_from(ev, i + 1, 1);
    if i < c && c < e {
        c
    } else {
        e - 1
    }
}

/// The first event at or after `j` that is not an attribute.
pub open spec fn skip_attrs(ev: Seq<HtmlEvent>, j: int) -> int
    decreases ev.len() - j,
{
    if j < 0 || j >= ev.len() || !(ev[j] is Attr) {
        j
    } else {
        skip_attrs(ev, j + 1)
    }
}

/// The index of the first child event of the element opened at `i`.
pub open spec fn first_child(ev: Seq<HtmlEvent>, i: int) -> int {
    let f = skip_attrs(ev, i + 1);
    if f > i {
        f
    } else {
        i + 1
    }
}

/// The value of the first attribute with the name among the attributes that
/// start at `j`.
pub open spec fn attr_value(ev: Seq<HtmlEvent>, j: int, name: Seq<char>) -> Option<Seq<char>>
    decreases ev.len() - j,
{
    if j < 0 || j >= ev.len() {
        None
    } else {
        match ev[j] {
            HtmlEvent::Attr(k, v) => if k@ == name {
                Some(v@)
            } else {
                attr_value(ev, j + 1, name)
            },
            _ => None,
        }
    }
}

/// The text of the text events in `[a, b)`, in order.
pub open spec fn texts(ev: Seq<HtmlEvent>, a: int, b: int) -> Seq<char>
    decreases b - a,
{
    if b <= a {
        Seq::empty()
    } else {
        texts(ev, a, b - 1) + match ev[b - 1] {
            HtmlEvent::Text(t) => t@,
            _ => Seq::empty(),
        }
    }
}

/// The text of a list item without the text of the lists and tables inside
/// it: the trimmed text of its text children and, in turn, that of its
/// other element children.
pub open spec fn tws_children(ev: Seq<HtmlEvent>, i: int, e: int) -> Seq<char>
    decreases e - i, 1int,
{
    if i >= e || i < 0 || i >= ev.len() {
        Seq::empty()
    } else {
        let end = node_end(ev, i, e);
        match ev[i] {
            HtmlEvent::Text(t) => trimmed(t@) + tws_children(ev, end + 1, e),
            HtmlEvent::OpenElement(n) => if n@ == "ul"@ || n@ == "ol"@ || n@ == "table"@ {
                tws_children(ev, end + 1, e)
            } else {
                tws_element(ev, i, end, n@) + tws_children(ev, end + 1, e)
            },
            HtmlEvent::OpenOther => tws_children(ev, end + 1, e),
            _ => tws_children(ev, i + 1, e),
        }
    }
}

/// The text of an element, leaving out lists and tables when it is a list
/// item.
pub open spec fn tws_element(ev: Seq<HtmlEvent>, i: int, end: int, name: Seq<char>) -> Seq<char>
    decreases end - i, 0int,
{
    if name == "li"@ {
        if first_child(ev, i) < end {
            tws_children(ev, first_child(ev, i), end)
        } else {
            Seq::empty()
        }
    } else {
        texts(ev, first_child(ev, i), end)
    }
}

/// What the walk through a page asks of the graph.
#[derive(Debug)]
pub enum ScrapeAction {
    /// Record a piece of metadata: its attribute name and content.
    Meta(String, String),
    /// Add a piece of text with a label, as a part of the page.
    Part(String, NodeLabel),
    /// Add a list, nested in the enclosing list or not, and enter it.
    EnterList(NodeLabel, bool),
    /// Leave the list entered last.
    ExitList,
    /// Add an item to the list entered last.
    ListItem(String),
    /// Add a link; what follows up to the matching end happens only when it
    /// was added.
    AnchorStart(String),
    AnchorEnd,
}

/// The contents of a scrape action.
pub enum ScrapeActionV {
    Meta(Seq<char>, Seq<char>),
    Part(Seq<char>, NodeLabel),
    EnterList(NodeLabel, bool),
    ExitList,
    ListItem(Seq<char>),
    AnchorStart(Seq<char>),
    AnchorEnd,
}

impl View for ScrapeAction {
    type V = ScrapeActionV;

    open spec fn view(&self) -> ScrapeActionV {
        match self {
            ScrapeAction::Meta(a, c) => ScrapeActionV::Meta(a@, c@),
            ScrapeAction::Part(t, l) => ScrapeActionV::Part(t@, *l),
            ScrapeAction::EnterList(l, n) => ScrapeActionV::EnterList(*l, *n),
            ScrapeAction::ExitList => ScrapeActionV::ExitList,
            ScrapeAction::ListItem(t) => ScrapeActionV::ListItem(t@),
            ScrapeAction::AnchorStart(h) => ScrapeActionV::AnchorStart(h@),
            ScrapeAction::AnchorEnd => ScrapeActionV::AnchorEnd,
        }
    }
}

/// True for the names of heading elements.
pub open spec fn is_heading(n: Seq<char>) -> bool {
    n == "h1"@ || n == "h2"@ || n == "h3"@ || n == "h4"@ || n == "h5"@ || n == "h6"@
}

/// The metadata that a `meta` element gives: its content under the name of
/// its `property`, then under its `name`.
pub open spec fn meta_actions(ev: Seq<HtmlEvent>, i: int) -> Seq<ScrapeActionV> {
    match attr_value(ev, i + 1, "content"@) {
        None => Seq::empty(),
        Some(c) => (match attr_value(ev, i + 1, "property"@) {
            Some(p) => seq![ScrapeActionV::Meta(p, c)],
            None => Seq::empty(),
        }) + (match attr_value(ev, i + 1, "name"@) {
            Some(n) => seq![ScrapeActionV::Meta(n, c)],
            None => Seq::empty(),
        }),
    }
}

/// The metadata that a `link` element gives: its `href` as the favicon, when
/// its `rel` mentions an icon.
pub open spec fn link_actions(ev: Seq<HtmlEvent>, i: int) -> Seq<ScrapeActionV> {
    match (attr_value(ev, i + 1, "href"@), attr_value(ev, i + 1, "rel"@)) {
        (Some(h), Some(r)) => if crate::text::has_substring(r, "icon"@) {
            seq![ScrapeActionV::Meta("favicon"@, h)]
        } else {
            Seq::empty()
        },
        _ => Seq::empty(),
    }
}

/// The metadata that an `img` element gives: its `src` as an image.
pub open spec fn img_actions(ev: Seq<HtmlEvent>, i: int) -> Seq<ScrapeActionV> {
    match attr_value(ev, i + 1, "src"@) {
        Some(s) => seq![ScrapeActionV::Meta("image"@, s)],
        None => Seq::empty(),
    }
}

/// What the walk asks of the graph for the nodes in `[i, e)`, which are
/// children of the list `in_list` when it is given.
pub open spec fn plan_nodes(ev: Seq<HtmlEvent>, i: int, e: int, in_list: Option<NodeLabel>) -> Seq<ScrapeActionV>
    decreases e - i, 1int,
{
    if i >= e || i < 0 || i >= ev.len() {
        Seq::empty()
    } else {
        let end = node_end(ev, i, e);
        match ev[i] {
            HtmlEvent::OpenElement(n) => plan_element(ev, i, end, n@, in_list) + plan_nodes(ev, end + 1, e, in_list),
            HtmlEvent::Text(_) => plan_nodes(ev, end + 1, e, in_list),
            HtmlEvent::OpenOther => plan_nodes(ev, end + 1, e, in_list),
            _ => plan_nodes(ev, i + 1, e, in_list),
        }
    }
}

/// What the walk asks of the graph for the element opened at `i` and closed
/// at `end`, and for its descendants.
pub open spec fn plan_element(ev: Seq<HtmlEvent>, i: int, end: int, name: Seq<char>, in_list: Option<NodeLabel>) -> Seq<ScrapeActionV>
    decreases end - i, 0int,
{
    let fc = first_child(ev, i);
    let inner = if fc < end {
        plan_nodes(ev, fc, end, None)
    } else {
        Seq::empty()
    };
    let text = texts(ev, fc, end);
    if name == "meta"@ {
        meta_actions(ev, i) + inner
    } else if name == "link"@ {
        link_actions(ev, i) + inner
    } else if name == "img"@ {
        img_actions(ev, i) + inner
    } else if name == "title"@ {
        seq![ScrapeActionV::Part(cleaned(text), NodeLabel::Title), ScrapeActionV::Meta("title"@, cleaned(text))] + inner
    } else if is_heading(name) {
        seq![ScrapeActionV::Part(cleaned(text), NodeLabel::Heading)] + inner
    } else if name == "p"@ {
        seq![ScrapeActionV::Part(cleaned(text), NodeLabel::Paragraph)] + inner
    } else if name == "ul"@ || name == "ol"@ {
        let kind = if name == "ul"@ {
            NodeLabel::UnorderedPoints
        } else {
            NodeLabel::OrderedPoints
        };
        if fc < end {
            seq![ScrapeActionV::EnterList(kind, in_list is Some)] + plan_nodes(ev, fc, end, Some(kind)) + seq![
                ScrapeActionV::ExitList,
            ]
        } else {
            Seq::empty()
        }
    } else if name == "li"@ {
        (if in_list is Some {
            seq![ScrapeActionV::ListItem(cleaned(tws_element(ev, i, end, name)))]
        } else {
            Seq::empty()
        }) + inner
    } else if name == "a"@ {
        match attr_value(ev, i + 1, "href"@) {
            None => Seq::empty(),
            Some(h) => if has_prefix(h, "#"@) || text.len() == 0 {
                Seq::empty()
            } else {
                seq![ScrapeActionV::AnchorStart(h)] + inner + seq![ScrapeActionV::AnchorEnd]
            },
        }
    } else {
        inner
    }
}

/// The index of the event that closes the node open at depth `d` when the
/// walk reaches `i`.
pub fn find_close(ev: &Vec<HtmlEvent>, i: usize, d: usize) -> (r: usize)
    requires
        i <= ev@.len(),
        d + ev@.len() < usize::MAX,
    ensures
        r == close_from(ev@, i as int, d as nat),
        r <= ev@.len(),
{
    let mut j = i;
    let mut depth = d;
    while j < ev.len()
        invariant
            i <= j <= ev@.len(),
            depth <= d + (j - i),
            d + ev@.len() < usize::MAX,
            close_from(ev@, j as int, depth as nat) == close_from(ev@, i as int, d as nat),
        decreases ev@.len() - j,
    {
        match &ev[j] {
            HtmlEvent::OpenElement(_) | HtmlEvent::Text(_) | HtmlEvent::OpenOther => {
                depth = depth + 1;
            },
            HtmlEvent::CloseElement | HtmlEvent::CloseOther => {
                if depth <= 1 {
                    return j;
                }
                depth = depth - 1;
            },
            HtmlEvent::Attr(_, _) => {},
        }
        j = j + 1;
    }
    j
}

/// The index of the event that closes the node opened at `i`, within
/// `[i, e)`.
pub fn find_node_end(ev: &Vec<HtmlEvent>, i: usize, e: usize) -> (r: usize)
    requires
        i < e <= ev@.len(),
        ev@.len() + 2 < usize::MAX,
    ensures
        r == node_end(ev@, i as int, e as int),
        i <= r < e,
{
    let c = find_close(ev, i + 1, 1);
    if i < c && c < e {
        c
    } else {
        e - 1
    }
}

/// The index of the first child event of the element opened at `i`.
pub fn find_first_child(ev: &Vec<HtmlEvent>, i: usize) -> (r: usize)
    requires
        i < ev@.len(),
        ev@.len() + 2 < usize::MAX,
    ensures
        r == first_child(ev@, i as int),
        i < r <= ev@.len(),
{
    let mut j = i + 1;
    while j < ev.len() && matches!(ev[j], HtmlEvent::Attr(_, _))
        invariant
            i < j <= ev@.len(),
            skip_attrs(ev@, j as int) == skip_attrs(ev@, i as int + 1),
        decreases ev@.len() - j,
    {
        j = j + 1;
    }
    j
}

/// The value of the first attribute with the name among those that start at
/// `j`.
pub fn find_attr(ev: &Vec<HtmlEvent>, j: usize, name: &str) -> (r: Option<String>)
    requires
        j <= ev@.len(),
    ensures
        match r {
            Some(v) => attr_value(ev@, j as int, name@) == Some(v@),
            None => attr_value(ev@, j as int, name@) is None,
        },
{
    let mut k = j;
    while k < ev.len()
        invariant
            j <= k <= ev@.len(),
            attr_value(ev@, k as int, name@) == attr_value(ev@, j as int, name@),
        decreases ev@.len() - k,
    {
        match &ev[k] {
            HtmlEvent::Attr(a, v) => {
                if str_eq(a.as_str(), name) {
                    return Some(v.clone());
                }
            },
            _ => {
                return None;
            },
        }
        k = k + 1;
    }
    None
}

/// The text of the text events in `[a, b)`.
pub fn collect_texts(ev: &Vec<HtmlEvent>, a: usize, b: usize) -> (r: String)
    requires
        a <= b <= ev@.len(),
    ensures
        r@ == texts(ev@, a as int, b as int),
{
    let mut out = String::new();
    let mut k = a;
    while k < b
        invariant
            a <= k <= b <= ev@.len(),
            out@ == texts(ev@, a as int, k as int),
        decreases b - k,
    {
        match &ev[k] {
            HtmlEvent::Text(t) => {
                out.append(t.as_str());
            },
            _ => {
                assert(texts(ev@, a as int, k as int + 1) =~= texts(ev@, a as int, k as int));
            },
        }
        k = k + 1;
    }
    out
}

/// True when the name is one of `ul`, `ol` and `table`.
fn is_list_or_table(n: &str) -> (r: bool)
    ensures
        r == (n@ == "ul"@ || n@ == "ol"@ || n@ == "table"@),
{
    str_eq(n, "ul") || str_eq(n, "ol") || str_eq(n, "table")
}

/// The list item text of the nodes in `[i, e)`: see `tws_children`.
pub fn text_without_subtrees_from(ev: &Vec<HtmlEvent>, i: usize, e: usize) -> (r: String)
    requires
        e <= ev@.len(),
        ev@.len() + 2 < usize::MAX,
    ensures
        r@ == tws_children(ev@, i as int, e as int),
    decreases e - i, 1int,
{
    if i >= e {
        return String::new();
    }
    let end = find_node_end(ev, i, e);
    let mut out = match &ev[i] {
        HtmlEvent::Text(t) => trim(t.as_str()),
        HtmlEvent::OpenElement(n) => {
            if is_list_or_table(n.as_str()) {
                String::new()
            } else {
                text_without_subtrees(ev, i, end, n.as_str())
            }
        },
        _ => String::new(),
    };
    let next = match &ev[i] {
        HtmlEvent::Text(_) | HtmlEvent::OpenElement(_) | HtmlEvent::OpenOther => end + 1,
        _ => i + 1,
    };
    let rest = text_without_subtrees_from(ev, next, e);
    out.append(rest.as_str());
    out
}

/// The text of the element opened at `i` and closed at `end`, leaving out
/// lists and tables when it is a list item.
pub fn text_without_subtrees(ev: &Vec<HtmlEvent>, i: usize, end: usize, name: &str) -> (r: String)
    requires
        i <= end < ev@.len(),
        ev@.len() + 2 < usize::MAX,
    ensures
        r@ == tws_element(ev@, i as int, end as int, name@),
    decreases end - i, 0int,
{
    let fc = find_first_child(ev, i);
    if str_eq(name, "li") {
        if fc < end {
            text_without_subtrees_from(ev, fc, end)
        } else {
            String::new()
        }
    } else {
        collect_texts(ev, if fc < end { fc } else { end }, end)
    }
}

/// The contents of a list of scrape actions.
pub open spec fn actions_view(v: Seq<ScrapeAction>) -> Seq<ScrapeActionV> {
    v.map_values(|a: ScrapeAction| a@)
}

/// Appends an action.
fn push_action(out: &mut Vec<ScrapeAction>, a: ScrapeAction)
    ensures
        actions_view(final(out)@) == actions_view(old(out)@).push(a@),
{
    out.push(a);
    assert(actions_view(out@) =~= actions_view(old(out)@).push(a@));
}

/// Appends what a `meta`, `link` or `img` element gives.
fn push_metadata_actions(ev: &Vec<HtmlEvent>, i: usize, name: &str, out: &mut Vec<ScrapeAction>)
    requires
        i < ev@.len(),
        ev@.len() + 2 < usize::MAX,
        name@ == "meta"@ || name@ == "link"@ || name@ == "img"@,
    ensures
        actions_view(final(out)@) == actions_view(old(out)@) + if name@ == "meta"@ {
            meta_actions(ev@, i as int)
        } else if name@ == "link"@ {
            link_actions(ev@, i as int)
        } else {
            img_actions(ev@, i as int)
        },
{
    let ghost start = actions_view(out@);
    proof {
        reveal_strlit("meta");
        reveal_strlit("link");
        reveal_strlit("img");
    }
    if str_eq(name, "meta") {
        match find_attr(ev, i + 1, "content") {
            None => {
                assert(actions_view(out@) =~= start + meta_actions(ev@, i as int));
            },
            Some(c) => {
                let ghost mid;
                match find_attr(ev, i + 1, "property") {
                    Some(p) => {
                        push_action(out, ScrapeAction::Meta(p, c.clone()));
                    },
                    None => {},
                }
                proof {
                    mid = actions_view(out@);
                }
                match find_attr(ev, i + 1, "name") {
                    Some(n) => {
                        push_action(out, ScrapeAction::Meta(n, c));
                    },
                    None => {},
                }
                assert(actions_view(out@) =~= start + meta_actions(ev@, i as int));
            },
        }
    } else if str_eq(name, "link") {
        match (find_attr(ev, i + 1, "href"), find_attr(ev, i + 1, "rel")) {
            (Some(h), Some(r)) => {
                if crate::text::contains_str(r.as_str(), "icon") {
                    push_action(out, ScrapeAction::Meta(String::from_str("favicon"), h));
                }
            },
            _ => {},
        }
        assert(actions_view(out@) =~= start + link_actions(ev@, i as int));
    } else {
        match find_attr(ev, i + 1, "src") {
            Some(src) => {
                push_action(out, ScrapeAction::Meta(String::from_str("image"), src));
            },
            None => {},
        }
        assert(actions_view(out@) =~= start + img_actions(ev@, i as int));
    }
}

/// True for the names of heading elements.
fn is_heading_name(n: &str) -> (r: bool)
    ensures
        r == is_heading(n@),
{
    str_eq(n, "h1") || str_eq(n, "h2") || str_eq(n, "h3") || str_eq(n, "h4") || str_eq(n, "h5") || str_eq(n, "h6")
}

/// Appends what the walk asks of the graph for the nodes in `[i, e)`.
pub fn plan_nodes_into(ev: &Vec<HtmlEvent>, i: usize, e: usize, in_list: Option<NodeLabel>, out: &mut Vec<ScrapeAction>)
    requires
        e <= ev@.len(),
        ev@.len() + 2 < usize::MAX,
    ensures
        actions_view(final(out)@) == actions_view(old(out)@) + plan_nodes(ev@, i as int, e as int, in_list),
    decreases e - i, 1int,
{
    if i >= e {
        assert(actions_view(out@) =~= actions_view(old(out)@) + plan_nodes(ev@, i as int, e as int, in_list));
        return;
    }
    let end = find_node_end(ev, i, e);
    let ghost start = actions_view(out@);
    match &ev[i] {
        HtmlEvent::OpenElement(n) => {
            plan_element_into(ev, i, end, n.as_str(), in_list, out);
            let ghost mid = actions_view(out@);
            plan_nodes_into(ev, end + 1, e, in_list, out);
            assert(actions_view(out@) =~= start + plan_nodes(ev@, i as int, e as int, in_list));
        },
        HtmlEvent::Text(_) | HtmlEvent::OpenOther => {
            plan_nodes_into(ev, end + 1, e, in_list, out);
        },
        _ => {
            plan_nodes_into(ev, i + 1, e, in_list, out);
        },
    }
}

/// Appends what the walk asks of the graph for the element opened at `i` and
/// closed at `end`.
pub fn plan_element_into(ev: &Vec<HtmlEvent>, i: usize, end: usize, name: &str, in_list: Option<NodeLabel>, out: &mut Vec<ScrapeAction>)
    requires
        i <= end < ev@.len(),
        ev@.len() + 2 < usize::MAX,
    ensures
        actions_view(final(out)@) == actions_view(old(out)@) + plan_element(ev@, i as int, end as int, name@, in_list),
    decreases end - i, 0int,
{
    let ghost start = actions_view(out@);
    let fc = find_first_child(ev, i);
    let has_kids = fc < end;
    let text = collect_texts(ev, if has_kids { fc } else { end }, end);
    assert(text@ == texts(ev@, fc as int, end as int));
    proof {
        reveal_strlit("meta");
        reveal_strlit("link");
        reveal_strlit("img");
        reveal_strlit("title");
        reveal_strlit("p");
        reveal_strlit("ul");
        reveal_strlit("ol");
        reveal_strlit("li");
        reveal_strlit("a");
        reveal_strlit("h1");
        reveal_strlit("h2");
        reveal_strlit("h3");
        reveal_strlit("h4");
        reveal_strlit("h5");
        reveal_strlit("h6");
    }
    if str_eq(name, "meta") || str_eq(name, "link") || str_eq(name, "img") {
        push_metadata_actions(ev, i, name, out);
        if has_kids {
            plan_nodes_into(ev, fc, end, None, out);
        }
        assert(actions_view(out@) =~= start + plan_element(ev@, i as int, end as int, name@, in_list));
    } else if str_eq(name, "title") {
        let t = clean_text(text.as_str());
        push_action(out, ScrapeAction::Part(t.clone(), NodeLabel::Title));
        push_action(out, ScrapeAction::Meta(String::from_str("title"), t));
        if has_kids {
            plan_nodes_into(ev, fc, end, None, out);
        }
        assert(actions_view(out@) =~= start + plan_element(ev@, i as int, end as int, name@, in_list));
    } else if is_heading_name(name) {
        let t = clean_text(text.as_str());
        push_action(out, ScrapeAction::Part(t, NodeLabel::Heading));
        if has_kids {
            plan_nodes_into(ev, fc, end, None, out);
        }
        assert(actions_view(out@) =~= start + plan_element(ev@, i as int, end as int, name@, in_list));
    } else if str_eq(name, "p") {
        let t = clean_text(text.as_str());
        push_action(out, ScrapeAction::Part(t, NodeLabel::Paragraph));
        if has_kids {
            plan_nodes_into(ev, fc, end, None, out);
        }
        assert(!is_heading(name@));
        assert(actions_view(out@) =~= start + plan_element(ev@, i as int, end as int, name@, in_list));
    } else if str_eq(name, "ul") || str_eq(name, "ol") {
        let kind = if str_eq(name, "ul") {
            NodeLabel::UnorderedPoints
        } else {
            NodeLabel::OrderedPoints
        };
        if has_kids {
            push_action(out, ScrapeAction::EnterList(kind, in_list.is_some()));
            plan_nodes_into(ev, fc, end, Some(kind), out);
            push_action(out, ScrapeAction::ExitList);
        }
        assert(actions_view(out@) =~= start + plan_element(ev@, i as int, end as int, name@, in_list));
    } else if str_eq(name, "li") {
        if in_list.is_some() {
            let raw = text_without_subtrees(ev, i, end, name);
            push_action(out, ScrapeAction::ListItem(clean_text(raw.as_str())));
        }
        if has_kids {
            plan_nodes_into(ev, fc, end, None, out);
        }
        assert(actions_view(out@) =~= start + plan_element(ev@, i as int, end as int, name@, in_list));
    } else if str_eq(name, "a") {
        match find_attr(ev, i + 1, "href") {
            None => {},
            Some(h) => {
                if !starts_with(h.as_str(), "#") && text.unicode_len() > 0 {
                    push_action(out, ScrapeAction::AnchorStart(h));
                    if has_kids {
                        plan_nodes_into(ev, fc, end, None, out);
                    }
                    push_action(out, ScrapeAction::AnchorEnd);
                }
            },
        }
        assert(actions_view(out@) =~= start + plan_element(ev@, i as int, end as int, name@, in_list));
    } else {
        if has_kids {
            plan_nodes_into(ev, fc, end, None, out);
        }
        assert(actions_view(out@) =~= start + plan_element(ev@, i as int, end as int, name@, in_list));
    }
}

} // verus!
