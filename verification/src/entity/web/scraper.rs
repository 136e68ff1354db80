use vstd::prelude::*;
use crate::engine::graph::{with_payload, Engine};
use crate::engine::labels::NodeId;
use crate::engine::node::{Payload, PayloadView};
use crate::entity::project_settings::ProjectSettings;
use crate::entity::web::metadata::{WebMetadata, WebMetadataView};
use crate::error::{PiError, PiErrorKind, PiResult};
use crate::text::{contains_str, has_prefix, has_substring, lowercase, starts_with, to_lowercase};
use crate::web_url::{join_url, url_joined};

verus! {

/// What the walk over one page needs besides the graph: the link node whose
/// page it is, the page's metadata node, the page node, the page's URL and
/// the project settings that apply, with the ID of their node.
pub struct Traverser {
    pub link_node_id: NodeId,
    pub web_metadata_node_id: NodeId,
    pub webpage_node_id: NodeId,
    pub webpage_url: String,
    pub project_settings: Option<(NodeId, ProjectSettings)>,
}

/// The outcome of an operation without a value: success, or the kind of its
/// error.
pub open spec fn unit_outcome(r: PiResult<()>) -> Result<(), PiErrorKind> {
    match r {
        Ok(_) => Ok(()),
        Err(e) => Err(e.kind()),
    }
}

/// True for image URLs that probably point at a favicon.
pub open spec fn looks_like_favicon(c: Seq<char>) -> bool {
    has_substring(c, "fav"@) || has_substring(c, "apple-touch"@) || has_substring(c, ".ico"@)
}

/// An image URL found on the page at `page_url`, made absolute: kept when it
/// starts with `http`, otherwise resolved against the root of the site.
pub open spec fn resolved_image(page_url: Seq<char>, c: Seq<char>) -> Result<Seq<char>, PiErrorKind> {
    if has_prefix(c, "http"@) {
        Ok(c)
    } else {
        match url_joined(page_url, "/"@) {
            None => Err(PiErrorKind::UrlParseError),
            Some(base) => match url_joined(base.3, c) {
                None => Err(PiErrorKind::UrlParseError),
                Some(u) => Ok(u.3),
            },
        }
    }
}

/// The metadata with an image URL in the favicon slot, unless that slot is
/// taken.
pub open spec fn with_favicon(m: WebMetadataView, image: Result<Seq<char>, PiErrorKind>) -> Result<Option<WebMetadataView>, PiErrorKind> {
    if m.favicon is Some {
        Ok(None)
    } else {
        match image {
            Err(k) => Err(k),
            Ok(u) => Ok(Some(WebMetadataView { favicon: Some(u), ..m })),
        }
    }
}

/// The metadata after `c` is recorded under the lower-cased attribute name
/// `a`: `None` when nothing changes. The first rule whose word occurs in `a`
/// decides; URL, favicon, image and title keep the first value recorded,
/// tags and keywords collect every value, the other fields keep the last.
/// Image attributes count only when they mention a width or a height.
pub open spec fn metadata_with(m: WebMetadataView, a: Seq<char>, c: Seq<char>, image: Result<Seq<char>, PiErrorKind>) -> Result<Option<WebMetadataView>, PiErrorKind> {
    if has_substring(a, "url"@) {
        if m.url is Some {
            Ok(None)
        } else {
            Ok(Some(WebMetadataView { url: Some(c), ..m }))
        }
    } else if has_substring(a, "site_name"@) {
        Ok(Some(WebMetadataView { site_name: Some(c), ..m }))
    } else if has_substring(a, "favicon"@) {
        with_favicon(m, image)
    } else if has_substring(a, "image"@) || has_substring(a, "thumbnail"@) {
        if !has_substring(a, "width"@) && !has_substring(a, "height"@) {
            Ok(None)
        } else if looks_like_favicon(c) {
            with_favicon(m, image)
        } else if m.image is Some {
            Ok(None)
        } else {
            match image {
                Err(k) => Err(k),
                Ok(u) => Ok(Some(WebMetadataView { image: Some(u), ..m })),
            }
        }
    } else if has_substring(a, "title"@) {
        if m.title is Some {
            Ok(None)
        } else {
            Ok(Some(WebMetadataView { title: Some(c), ..m }))
        }
    } else if has_substring(a, "description"@) {
        Ok(Some(WebMetadataView { description: Some(c), ..m }))
    } else if has_substring(a, "tags"@) || has_substring(a, "keywords"@) {
        Ok(
            Some(
                WebMetadataView {
                    tags: Some(
                        match m.tags {
                            Some(t) => t.push(c),
                            None => seq![c],
                        },
                    ),
                    ..m
                },
            ),
        )
    } else if has_substring(a, "published_time"@) {
        Ok(Some(WebMetadataView { published_time: Some(c), ..m }))
    } else if has_substring(a, "modified_time"@) || has_substring(a, "updated_time"@) {
        Ok(Some(WebMetadataView { modified_time: Some(c), ..m }))
    } else if has_substring(a, "author"@) {
        Ok(Some(WebMetadataView { author: Some(c), ..m }))
    } else if has_substring(a, "creator"@) {
        Ok(Some(WebMetadataView { creator: Some(c), ..m }))
    } else if has_substring(a, "lang"@) {
        Ok(Some(WebMetadataView { language: Some(c), ..m }))
    } else if has_substring(a, "locale"@) {
        Ok(Some(WebMetadataView { locale: Some(c), ..m }))
    } else {
        Ok(None)
    }
}

/// The graph after the metadata node `id` is given new metadata: only that
/// node's payload and time of writing change.
pub open spec fn metadata_written(e0: Engine, e1: Engine, id: NodeId, m: WebMetadataView) -> bool {
    &&& e1.node_map() == e0.node_map().insert(
        id,
        with_payload(e0.node_map()[id], PayloadView::WebMetadata(m), e1.node_map()[id].written_at),
    )
    &&& e1.node_order() == e0.node_order()
    &&& e1.edge_map() == e0.edge_map()
    &&& e1.edge_order() == e0.edge_order()
    &&& e1.next_node_id() == e0.next_node_id()
    &&& e1.open_fetch_requests() == e0.open_fetch_requests()
    &&& e1.project_id() == e0.project_id()
    &&& e1.outbox() == e0.outbox()
}

/// The effect of recording `c` under the attribute `attr` in the page's
/// metadata node, and its outcome. Empty content is ignored; a missing
/// metadata node is a `GraphError`, a node without metadata an
/// `InternalError`.
pub open spec fn metadata_recorded(t: Traverser, e0: Engine, e1: Engine, attr: Seq<char>, c: Seq<char>, r: Result<(), PiErrorKind>) -> bool {
    let id = t.web_metadata_node_id;
    if c.len() == 0 {
        r is Ok && e1 == e0
    } else if !e0.node_map().contains_key(id) {
        r == Err::<(), PiErrorKind>(PiErrorKind::GraphError) && e1 == e0
    } else {
        match e0.node_map()[id].payload {
            PayloadView::WebMetadata(m) => match metadata_with(m, lowercase(attr), c, resolved_image(t.webpage_url@, c)) {
                Err(k) => r == Err::<(), PiErrorKind>(k) && e1 == e0,
                Ok(None) => r is Ok && e1 == e0,
                Ok(Some(m2)) => r is Ok && metadata_written(e0, e1, id, m2),
            },
            _ => r == Err::<(), PiErrorKind>(PiErrorKind::InternalError) && e1 == e0,
        }
    }
}

fn some_text(c: &str) -> (r: Option<String>)
    ensures
        r matches Some(s) && s@ == c@,
{
    Some(String::from_str(c))
}

impl Traverser {
    /// Makes an image URL found on the page absolute.
    pub fn resolve_image(&self, content: &str) -> (r: PiResult<String>)
        ensures
            match r {
                Ok(u) => resolved_image(self.webpage_url@, content@) == Ok::<Seq<char>, PiErrorKind>(u@),
                Err(e) => resolved_image(self.webpage_url@, content@) == Err::<Seq<char>, PiErrorKind>(e.kind()),
            },
    {
        proof {
            reveal_strlit("http");
            reveal_strlit("/");
        }
        if starts_with(content, "http") {
            return Ok(String::from_str(content));
        }
        let base = match join_url(self.webpage_url.as_str(), "/") {
            Some(b) => b,
            None => {
                return Err(PiError::UrlParseError(String::from_str("Cannot resolve the root of the page URL")));
            },
        };
        match join_url(base.serialized.as_str(), content) {
            Some(u) => Ok(u.serialized),
            None => Err(PiError::UrlParseError(String::from_str("Cannot resolve the image URL"))),
        }
    }

    /// Puts an image URL into the favicon slot unless it is taken.
    fn favicon_into(&self, m: WebMetadata, content: &str) -> (r: PiResult<Option<WebMetadata>>)
        ensures
            match r {
                Ok(Some(m2)) => with_favicon(m@, resolved_image(self.webpage_url@, content@)) == Ok::<Option<WebMetadataView>, PiErrorKind>(Some(m2@)),
                Ok(None) => with_favicon(m@, resolved_image(self.webpage_url@, content@)) == Ok::<Option<WebMetadataView>, PiErrorKind>(None),
                Err(e) => with_favicon(m@, resolved_image(self.webpage_url@, content@)) == Err::<Option<WebMetadataView>, PiErrorKind>(e.kind()),
            },
    {
        if m.favicon.is_some() {
            return Ok(None);
        }
        let u = match self.resolve_image(content) {
            Ok(u) => u,
            Err(e) => {
                return Err(e);
            },
        };
        let mut m = m;
        m.favicon = Some(u);
        Ok(Some(m))
    }

    /// The metadata after `content` is recorded under the lower-cased
    /// attribute name `a`, or `None` when nothing changes.
    fn record_metadata(&self, m: WebMetadata, a: &str, content: &str) -> (r: PiResult<Option<WebMetadata>>)
        ensures
            match r {
                Ok(Some(m2)) => metadata_with(m@, a@, content@, resolved_image(self.webpage_url@, content@)) == Ok::<Option<WebMetadataView>, PiErrorKind>(Some(m2@)),
                Ok(None) => metadata_with(m@, a@, content@, resolved_image(self.webpage_url@, content@)) == Ok::<Option<WebMetadataView>, PiErrorKind>(None),
                Err(e) => metadata_with(m@, a@, content@, resolved_image(self.webpage_url@, content@)) == Err::<Option<WebMetadataView>, PiErrorKind>(e.kind()),
            },
    {
        let mut m = m;
        if contains_str(a, "url") {
            if m.url.is_some() {
                return Ok(None);
            }
            m.url = some_text(content);
        } else if contains_str(a, "site_name") {
            m.site_name = some_text(content);
        } else if contains_str(a, "favicon") {
            return self.favicon_into(m, content);
        } else if contains_str(a, "image") || contains_str(a, "thumbnail") {
            if !contains_str(a, "width") && !contains_str(a, "height") {
                return Ok(None);
            }
            if contains_str(content, "fav") || contains_str(content, "apple-touch") || contains_str(content, ".ico") {
                return self.favicon_into(m, content);
            }
            if m.image.is_some() {
                return Ok(None);
            }
            let u = match self.resolve_image(content) {
                Ok(u) => u,
                Err(e) => {
                    return Err(e);
                },
            };
            m.image = Some(u);
        } else if contains_str(a, "title") {
            if m.title.is_some() {
                return Ok(None);
            }
            m.title = some_text(content);
        } else if contains_str(a, "description") {
            m.description = some_text(content);
        } else if contains_str(a, "tags") || contains_str(a, "keywords") {
            let ghost old_tags = m@.tags;
            let mut tags = match m.tags {
                Some(t) => t,
                None => Vec::new(),
            };
            let ghost before = tags@;
            tags.push(String::from_str(content));
            proof {
                assert(tags@.map_values(|s: String| s@) =~= match old_tags {
                    Some(t) => t.push(content@),
                    None => seq![content@],
                });
            }
            m.tags = Some(tags);
        } else if contains_str(a, "published_time") {
            m.published_time = some_text(content);
        } else if contains_str(a, "modified_time") || contains_str(a, "updated_time") {
            m.modified_time = some_text(content);
        } else if contains_str(a, "author") {
            m.author = some_text(content);
        } else if contains_str(a, "creator") {
            m.creator = some_text(content);
        } else if contains_str(a, "lang") {
            m.language = some_text(content);
        } else if contains_str(a, "locale") {
            m.locale = some_text(content);
        } else {
            return Ok(None);
        }
        Ok(Some(m))
    }

    /// Records `content` under the attribute `attr` in the page's metadata
    /// node.
    pub fn update_metadata_node(&self, engine: &mut Engine, attr: &str, content: &str) -> (r: PiResult<()>)
        requires
            old(engine).wf(),
        ensures
            final(engine).wf(),
            metadata_recorded(*self, *old(engine), *final(engine), attr@, content@, unit_outcome(r)),
    {
        if content.unicode_len() == 0 {
            return Ok(());
        }
        let id = self.web_metadata_node_id;
        let m = match engine.get_node_by_id(&id) {
            Some(node) => match &node.payload {
                Payload::WebMetadata(existing) => existing.clone(),
                _ => {
                    return Err(PiError::InternalError(String::from_str("Node does not contain WebMetadata")));
                },
            },
            None => {
                return Err(PiError::GraphError(String::from_str("WebMetadata node not found")));
            },
        };
        let a = to_lowercase(attr);
        match self.record_metadata(m, a.as_str(), content) {
            Ok(Some(m2)) => {
                engine.update_node(&id, Payload::WebMetadata(m2));
                Ok(())
            },
            Ok(None) => Ok(()),
            Err(e) => Err(e),
        }
    }
}

} // verus!

verus! {

use crate::engine::labels::{CommonEdgeLabels, NodeLabel};
use crate::engine::node::ExistingOrNewNodeId;
use crate::engine::ops::{connection_effect, get_or_add_effect};
use crate::entity::project_settings::scrape_decision;
use crate::entity::web::html::{actions_view, ScrapeAction, ScrapeActionV};
use crate::entity::web::link::{link_add_effect, Link};

/// One way a node with `payload` and `labels` is looked up or added, and
/// connected as a child of `parent`: `mid` is the graph after the lookup,
/// `d` its result.
pub open spec fn child_added_via(e0: Engine, mid: Engine, e1: Engine, d: PiResult<ExistingOrNewNodeId>, parent: NodeId, payload: PayloadView, labels: Seq<NodeLabel>, r: Result<(), PiErrorKind>) -> bool {
    &&& mid.wf()
    &&& get_or_add_effect(&e0, &mid, payload, labels, true, None, d)
    &&& match d {
        Err(x) => r == Err::<(), PiErrorKind>(x.kind()) && e1 == mid,
        Ok(n) => r is Ok && connection_effect(
            &mid,
            &e1,
            (parent, n.spec_node_id()),
            (CommonEdgeLabels::ParentOf, CommonEdgeLabels::ChildOf),
        ),
    }
}

/// A text node with `labels` is added to the graph and connected as a
/// child of `parent`.
pub open spec fn text_child_added(e0: Engine, e1: Engine, parent: NodeId, text: Seq<char>, labels: Seq<NodeLabel>, r: Result<(), PiErrorKind>) -> bool {
    exists|mid: Engine, d: PiResult<ExistingOrNewNodeId>, s: String|
        s@ == text && #[trigger] child_added_via(e0, mid, e1, d, parent, PayloadView::Text(s), labels, r)
}

/// One way a list is entered: a tree node with the list's kind is added as a
/// child of the page (`mid1`, `mid2` the graphs after the lookup and after
/// that connection) and of the enclosing list when there is one, and pushed
/// on the stack of open lists.
pub open spec fn list_entered_via(e0: Engine, mid1: Engine, mid2: Engine, e1: Engine, d: PiResult<ExistingOrNewNodeId>, page: NodeId, parent: Option<NodeId>, kind: NodeLabel, stack: Seq<NodeId>, s1: (Seq<NodeId>, nat), r: Result<(), PiErrorKind>) -> bool {
    &&& mid1.wf()
    &&& get_or_add_effect(&e0, &mid1, PayloadView::Tree, seq![kind, NodeLabel::Partial], true, None, d)
    &&& match d {
        Err(x) => r == Err::<(), PiErrorKind>(x.kind()) && e1 == mid1,
        Ok(n) => {
            let id = n.spec_node_id();
            &&& r is Ok
            &&& s1 == (stack.push(id), 0nat)
            &&& connection_effect(&mid1, &mid2, (page, id), (CommonEdgeLabels::ParentOf, CommonEdgeLabels::ChildOf))
            &&& match parent {
                Some(p) => connection_effect(&mid2, &e1, (p, id), (CommonEdgeLabels::ParentOf, CommonEdgeLabels::ChildOf)),
                None => e1 == mid2,
            }
        },
    }
}

/// A list is entered.
pub open spec fn list_entered(e0: Engine, e1: Engine, page: NodeId, parent: Option<NodeId>, kind: NodeLabel, stack: Seq<NodeId>, s1: (Seq<NodeId>, nat), r: Result<(), PiErrorKind>) -> bool {
    exists|mid1: Engine, mid2: Engine, d: PiResult<ExistingOrNewNodeId>|
        #[trigger] list_entered_via(e0, mid1, mid2, e1, d, page, parent, kind, stack, s1, r)
}

/// Where a link on the page leads, and whether a new domain may be added
/// for it: links that start with `https://` are taken as they are, others
/// are resolved against the page's URL; `None` when that fails.
pub open spec fn link_target(page_url: Seq<char>, href: Seq<char>) -> Option<(Seq<char>, bool)> {
    if has_prefix(href, "https://"@) {
        Some((href, true))
    } else {
        match url_joined(page_url, href) {
            None => None,
            Some(p) => Some((p.3, false)),
        }
    }
}

/// Whether the project settings let links on this page be followed.
pub open spec fn anchor_decision(t: Traverser, e: Engine, href: Seq<char>) -> Result<bool, PiErrorKind> {
    match t.project_settings {
        None => Ok(true),
        Some((settings_id, s)) => scrape_decision(&e, s, settings_id, t.link_node_id, t.webpage_url@, href),
    }
}

/// One way a link is followed: it is added (`mid` the graph after that,
/// `l` the result) and, when that succeeds, connected as a child of the
/// page; when it fails, what the link encloses is skipped.
pub open spec fn link_followed_via(e0: Engine, mid: Engine, e1: Engine, l: PiResult<NodeId>, page: NodeId, url: Seq<char>, new_domain: bool, stack: Seq<NodeId>, s1: (Seq<NodeId>, nat)) -> bool {
    &&& mid.wf()
    &&& link_add_effect(&e0, &mid, url, seq![NodeLabel::Link], Seq::empty(), new_domain, l)
    &&& match l {
        Err(_) => e1 == mid && s1 == (stack, 1nat),
        Ok(id) => s1 == (stack, 0nat) && connection_effect(
            &mid,
            &e1,
            (page, id),
            (CommonEdgeLabels::ParentOf, CommonEdgeLabels::ChildOf),
        ),
    }
}

/// A link is followed.
pub open spec fn link_followed(e0: Engine, e1: Engine, page: NodeId, url: Seq<char>, new_domain: bool, stack: Seq<NodeId>, s1: (Seq<NodeId>, nat)) -> bool {
    exists|mid: Engine, l: PiResult<NodeId>| #[trigger] link_followed_via(e0, mid, e1, l, page, url, new_domain, stack, s1)
}

/// The effect of one action of the walk over a page, its outcome, and the
/// state of the walk after it. The state is the stack of open lists and the
/// number of links being skipped: while links are skipped only link starts
/// and ends are counted.
pub open spec fn scrape_step(t: Traverser, e0: Engine, e1: Engine, s0: (Seq<NodeId>, nat), s1: (Seq<NodeId>, nat), a: ScrapeActionV, r: Result<(), PiErrorKind>) -> bool {
    let stack = s0.0;
    let skip = s0.1;
    if skip > 0 {
        &&& r is Ok
        &&& e1 == e0
        &&& s1 == match a {
            ScrapeActionV::AnchorStart(_) => (stack, skip + 1),
            ScrapeActionV::AnchorEnd => (stack, (skip - 1) as nat),
            _ => s0,
        }
    } else {
        match a {
            ScrapeActionV::Meta(attr, c) => s1 == s0 && metadata_recorded(t, e0, e1, attr, c, r),
            ScrapeActionV::Part(text, label) => s1 == s0 && text_child_added(
                e0,
                e1,
                t.webpage_node_id,
                text,
                seq![label, NodeLabel::Partial],
                r,
            ),
            ScrapeActionV::EnterList(kind, nested) => list_entered(
                e0,
                e1,
                t.webpage_node_id,
                if nested && stack.len() > 0 {
                    Some(stack.last())
                } else {
                    None
                },
                kind,
                stack,
                s1,
                r,
            ),
            ScrapeActionV::ExitList => r is Ok && e1 == e0 && s1 == (
                if stack.len() > 0 {
                    stack.drop_last()
                } else {
                    stack
                },
                0nat,
            ),
            ScrapeActionV::ListItem(text) => s1 == s0 && if stack.len() > 0 {
                text_child_added(e0, e1, stack.last(), text, seq![NodeLabel::ListItem, NodeLabel::Partial], r)
            } else {
                r is Ok && e1 == e0
            },
            ScrapeActionV::AnchorStart(href) => match anchor_decision(t, e0, href) {
                Err(k) => r == Err::<(), PiErrorKind>(k) && e1 == e0,
                Ok(false) => r is Ok && e1 == e0 && s1 == (stack, 1nat),
                Ok(true) => r is Ok && match link_target(t.webpage_url@, href) {
                    None => e1 == e0 && s1 == (stack, 1nat),
                    Some((url, new_domain)) => link_followed(e0, e1, t.webpage_node_id, url, new_domain, stack, s1),
                },
            },
            ScrapeActionV::AnchorEnd => r is Ok && e1 == e0 && s1 == s0,
        }
    }
}

/// Step `k` of a walk succeeds.
pub open spec fn step_ok(t: Traverser, engines: Seq<Engine>, states: Seq<(Seq<NodeId>, nat)>, acts: Seq<ScrapeActionV>, k: int) -> bool {
    scrape_step(t, engines[k], engines[k + 1], states[k], states[k + 1], acts[k], Ok(()))
}

/// The first `n` actions of a walk succeed, through the graphs `engines` and
/// the states `states`, from an empty stack and no skipping.
pub open spec fn walk_prefix(t: Traverser, engines: Seq<Engine>, states: Seq<(Seq<NodeId>, nat)>, acts: Seq<ScrapeActionV>, n: int) -> bool {
    &&& 0 <= n <= acts.len()
    &&& engines.len() == n + 1
    &&& states.len() == n + 1
    &&& states[0] == (Seq::<NodeId>::empty(), 0nat)
    &&& forall|k: int| 0 <= k < n ==> #[trigger] step_ok(t, engines, states, acts, k)
}

/// The walk over the actions, from graph `e0`, ends in graph `e1` with
/// outcome `r`: every action succeeds, or the walk stops at the first that
/// fails.
pub open spec fn walked(t: Traverser, e0: Engine, e1: Engine, acts: Seq<ScrapeActionV>, r: Result<(), PiErrorKind>) -> bool {
    exists|engines: Seq<Engine>, states: Seq<(Seq<NodeId>, nat)>, n: int|
        #[trigger] walk_prefix(t, engines, states, acts, n) && engines[0] == e0 && match r {
            Ok(_) => n == acts.len() && engines[n] == e1,
            Err(k) => n < acts.len() && scrape_step(t, engines[n], e1, states[n], states[n], acts[n], r),
        }
}

} // verus!

verus! {

use crate::web_url::UrlParts;

/// The labels of a part of a page: its own label and `Partial`.
fn part_labels(label: NodeLabel) -> (r: Vec<NodeLabel>)
    ensures
        r@ == seq![label, NodeLabel::Partial],
{
    let mut v = Vec::new();
    v.push(label);
    v.push(NodeLabel::Partial);
    v
}

impl Traverser {
    /// Adds a text node with the given labels as a child of `parent`.
    fn add_text_child(engine: &mut Engine, parent: NodeId, text: String, labels: Vec<NodeLabel>) -> (r: PiResult<()>)
        requires
            old(engine).wf(),
        ensures
            final(engine).wf(),
            text_child_added(*old(engine), *final(engine), parent, text@, labels@, unit_outcome(r)),
    {
        let ghost e0 = *engine;
        let ghost s = text;
        let ghost lv = labels@;
        let d = engine.get_or_add_node(Payload::Text(text), labels, true, None);
        let ghost mid = *engine;
        let ghost dd = d;
        match d {
            Ok(n) => {
                let id = n.get_node_id();
                engine.add_connection((parent, id), (CommonEdgeLabels::ParentOf, CommonEdgeLabels::ChildOf));
                assert(child_added_via(e0, mid, *engine, dd, parent, PayloadView::Text(s), lv, Ok(())));
                Ok(())
            },
            Err(e) => {
                assert(child_added_via(e0, mid, *engine, dd, parent, PayloadView::Text(s), lv, Err(e.kind())));
                Err(e)
            },
        }
    }

    /// Adds a list of the given kind as a child of the page, and of the
    /// enclosing list when there is one, and pushes it on the stack.
    fn enter_list(&self, engine: &mut Engine, kind: NodeLabel, parent: Option<NodeId>, stack: &mut Vec<NodeId>) -> (r: PiResult<()>)
        requires
            old(engine).wf(),
        ensures
            final(engine).wf(),
            list_entered(*old(engine), *final(engine), self.webpage_node_id, parent, kind, old(stack)@, (final(stack)@, 0nat), unit_outcome(r)),
            r is Err ==> final(stack)@ == old(stack)@,
    {
        let ghost e0 = *engine;
        let ghost st = stack@;
        let labels = part_labels(kind);
        let d = engine.get_or_add_node(Payload::Tree, labels, true, None);
        let ghost mid1 = *engine;
        let ghost dd = d;
        match d {
            Ok(n) => {
                let id = n.get_node_id();
                engine.add_connection((self.webpage_node_id, id), (CommonEdgeLabels::ParentOf, CommonEdgeLabels::ChildOf));
                let ghost mid2 = *engine;
                match parent {
                    Some(p) => {
                        engine.add_connection((p, id), (CommonEdgeLabels::ParentOf, CommonEdgeLabels::ChildOf));
                    },
                    None => {},
                }
                stack.push(id);
                assert(list_entered_via(e0, mid1, mid2, *engine, dd, self.webpage_node_id, parent, kind, st, (stack@, 0nat), Ok(())));
                Ok(())
            },
            Err(e) => {
                assert(list_entered_via(e0, mid1, mid1, *engine, dd, self.webpage_node_id, parent, kind, st, (stack@, 0nat), Err(e.kind())));
                Err(e)
            },
        }
    }

    /// Where a link on the page leads, and whether a new domain may be added
    /// for it.
    fn link_target_of(&self, href: &String) -> (r: Option<(String, bool)>)
        ensures
            match r {
                Some((u, d)) => link_target(self.webpage_url@, href@) == Some((u@, d)),
                None => link_target(self.webpage_url@, href@) is None,
            },
    {
        proof {
            reveal_strlit("https://");
        }
        if starts_with(href.as_str(), "https://") {
            Some((href.clone(), true))
        } else {
            match join_url(self.webpage_url.as_str(), href.as_str()) {
                Some(p) => Some((p.serialized, false)),
                None => None,
            }
        }
    }

    /// Adds a link found on the page and connects it as a child of the page;
    /// when it cannot be added, what it encloses is skipped.
    fn follow_link(&self, engine: &mut Engine, url: String, new_domain: bool, stack: &Vec<NodeId>, skip: &mut usize)
        requires
            old(engine).wf(),
        ensures
            final(engine).wf(),
            link_followed(*old(engine), *final(engine), self.webpage_node_id, url@, new_domain, stack@, (stack@, *final(skip) as nat)),
    {
        let ghost e0 = *engine;
        let mut labels = Vec::new();
        labels.push(NodeLabel::Link);
        assert(labels@ =~= seq![NodeLabel::Link]);
        let no_labels: Vec<NodeLabel> = Vec::new();
        assert(no_labels@ =~= Seq::<NodeLabel>::empty());
        let l = Link::add(engine, url.as_str(), labels, no_labels, new_domain);
        let ghost mid = *engine;
        let ghost ll = l;
        match l {
            Ok(id) => {
                engine.add_connection((self.webpage_node_id, id), (CommonEdgeLabels::ParentOf, CommonEdgeLabels::ChildOf));
                *skip = 0;
            },
            Err(_) => {
                *skip = 1;
            },
        }
        assert(link_followed_via(e0, mid, *engine, ll, self.webpage_node_id, url@, new_domain, stack@, (stack@, *skip as nat)));
    }

    /// Carries out one action of the walk over the page.
    fn step(&self, engine: &mut Engine, a: &ScrapeAction, stack: &mut Vec<NodeId>, skip: &mut usize) -> (r: PiResult<()>)
        requires
            old(engine).wf(),
            *old(skip) < usize::MAX,
        ensures
            final(engine).wf(),
            scrape_step(
                *self,
                *old(engine),
                *final(engine),
                (old(stack)@, *old(skip) as nat),
                (final(stack)@, *final(skip) as nat),
                a@,
                unit_outcome(r),
            ),
            r is Err ==> final(stack)@ == old(stack)@ && *final(skip) == *old(skip),
    {
        if *skip > 0 {
            match a {
                ScrapeAction::AnchorStart(_) => {
                    *skip = *skip + 1;
                },
                ScrapeAction::AnchorEnd => {
                    *skip = *skip - 1;
                },
                _ => {},
            }
            return Ok(());
        }
        match a {
            ScrapeAction::Meta(attr, c) => self.update_metadata_node(engine, attr.as_str(), c.as_str()),
            ScrapeAction::Part(text, label) => Self::add_text_child(
                engine,
                self.webpage_node_id,
                text.clone(),
                part_labels(*label),
            ),
            ScrapeAction::EnterList(kind, nested) => {
                let parent = if *nested && stack.len() > 0 {
                    Some(stack[stack.len() - 1])
                } else {
                    None
                };
                self.enter_list(engine, *kind, parent, stack)
            },
            ScrapeAction::ExitList => {
                if stack.len() > 0 {
                    stack.pop();
                }
                Ok(())
            },
            ScrapeAction::ListItem(text) => {
                if stack.len() > 0 {
                    let parent = stack[stack.len() - 1];
                    Self::add_text_child(engine, parent, text.clone(), part_labels(NodeLabel::ListItem))
                } else {
                    Ok(())
                }
            },
            ScrapeAction::AnchorStart(href) => {
                let allowed = match &self.project_settings {
                    None => Ok(true),
                    Some((settings_id, settings)) => settings.can_scrape_link(
                        settings_id,
                        &self.link_node_id,
                        self.webpage_url.as_str(),
                        href.as_str(),
                        engine,
                    ),
                };
                match allowed {
                    Err(e) => {
                        return Err(e);
                    },
                    Ok(false) => {
                        *skip = 1;
                        return Ok(());
                    },
                    Ok(true) => {},
                }
                match self.link_target_of(href) {
                    None => {
                        *skip = 1;
                    },
                    Some((url, new_domain)) => {
                        self.follow_link(engine, url, new_domain, stack, skip);
                    },
                }
                Ok(())
            },
            ScrapeAction::AnchorEnd => Ok(()),
        }
    }

    /// Carries out the actions of the walk over the page in order, stopping
    /// at the first that fails.
    pub fn walk(&self, engine: &mut Engine, acts: &Vec<ScrapeAction>) -> (r: PiResult<()>)
        requires
            old(engine).wf(),
        ensures
            final(engine).wf(),
            walked(*self, *old(engine), *final(engine), actions_view(acts@), unit_outcome(r)),
    {
        let ghost av = actions_view(acts@);
        let mut stack: Vec<NodeId> = Vec::new();
        let mut skip: usize = 0;
        let mut i: usize = 0;
        let ghost mut engines: Seq<Engine> = seq![*engine];
        let ghost mut states: Seq<(Seq<NodeId>, nat)> = seq![(stack@, 0nat)];
        assert(stack@ =~= Seq::<NodeId>::empty());
        while i < acts.len()
            invariant
                engine.wf(),
                av == actions_view(acts@),
                av.len() == acts@.len(),
                i <= acts@.len(),
                skip <= i,
                walk_prefix(*self, engines, states, av, i as int),
                engines[0] == *old(engine),
                engines[i as int] == *engine,
                states[i as int] == (stack@, skip as nat),
            decreases acts@.len() - i,
        {
            let ghost e_prev = *engine;
            let ghost engines_prev = engines;
            let ghost states_prev = states;
            assert(av[i as int] == acts@[i as int]@);
            let r = self.step(engine, &acts[i], &mut stack, &mut skip);
            match r {
                Err(e) => {
                    assert(walk_prefix(*self, engines, states, av, i as int));
                    assert(scrape_step(*self, engines[i as int], *engine, states[i as int], states[i as int], av[i as int], Err(e.kind())));
                    return Err(e);
                },
                Ok(()) => {},
            }
            proof {
                engines = engines.push(*engine);
                states = states.push((stack@, skip as nat));
                assert forall|k: int| 0 <= k < i + 1 implies #[trigger] step_ok(*self, engines, states, av, k) by {
                    if k < i {
                        assert(step_ok(*self, engines_prev, states_prev, av, k));
                    }
                }
            }
            i = i + 1;
        }
        assert(walk_prefix(*self, engines, states, av, i as int));
        Ok(())
    }
}

} // verus!

verus! {

use crate::engine::graph::{connected_ids, first_where, lemma_first_where_at, lemma_first_where_none};
use crate::engine::node::NodeItem;
use crate::entity::web::domain::{domain_of_node, Domain, FindDomainOf};
use crate::entity::web::html::{html_events, html_events_of, plan_nodes, plan_nodes_into};
use crate::entity::web::metadata::empty_metadata;
use crate::entity::web::web_page::{get_link_of_webpage, get_metadata_of_webpage, link_of_page, metadata_of_page};
use crate::text::concat3;
use crate::web_url::{parse_url, url_parsed};

/// The test that an ID names a node, present in the graph, that holds
/// project settings.
pub open spec fn settings_pred(e: Engine) -> spec_fn(NodeId) -> bool {
    |id: NodeId| e.node_map().contains_key(id) && e.node_map()[id].payload is ProjectSettings
}

/// The project settings that apply to a link: those of the first node the
/// link has a `RelatedTo` edge to that holds project settings.
pub open spec fn settings_of_link(e: Engine, link_id: NodeId) -> Option<(NodeId, ProjectSettings)> {
    match first_where(connected_ids(&e, link_id, CommonEdgeLabels::RelatedTo), settings_pred(e)) {
        None => None,
        Some(id) => Some((id, e.node_map()[id].payload->ProjectSettings_0)),
    }
}

/// One way a metadata node is made for a page that has none: empty metadata
/// is added (`mid` the graph after that, `d` the result) and connected as a
/// child of the page; `id` is its ID.
pub open spec fn metadata_added_via(e0: Engine, mid: Engine, e1: Engine, d: PiResult<ExistingOrNewNodeId>, page: NodeId, id: NodeId, r: Result<(), PiErrorKind>) -> bool {
    &&& mid.wf()
    &&& get_or_add_effect(
        &e0,
        &mid,
        PayloadView::WebMetadata(empty_metadata()),
        seq![NodeLabel::WebMetadata],
        true,
        None,
        d,
    )
    &&& match d {
        Err(x) => r == Err::<(), PiErrorKind>(x.kind()) && e1 == mid,
        Ok(n) => r is Ok && id == n.spec_node_id() && connection_effect(
            &mid,
            &e1,
            (page, id),
            (CommonEdgeLabels::ParentOf, CommonEdgeLabels::ChildOf),
        ),
    }
}

/// The metadata node `id` of a page is at hand in graph `e1`: the one the
/// page has, or a new one.
pub open spec fn metadata_ready(e0: Engine, e1: Engine, page: NodeId, id: NodeId, r: Result<(), PiErrorKind>) -> bool {
    match metadata_of_page(&e0, page) {
        Ok(m) => r is Ok && id == m && e1 == e0,
        Err(_) => exists|mid: Engine, d: PiResult<ExistingOrNewNodeId>| #[trigger] metadata_added_via(e0, mid, e1, d, page, id, r),
    }
}

/// The walk over the text of a page: over what `plan_nodes` asks of the
/// graph for the parsed document.
pub open spec fn page_walked(t: Traverser, e0: Engine, e1: Engine, doc: Seq<char>, r: Result<(), PiErrorKind>) -> bool {
    let ev = html_events_of(doc);
    if ev.len() + 2 >= usize::MAX {
        r == Err::<(), PiErrorKind>(PiErrorKind::InternalError) && e1 == e0
    } else {
        walked(t, e0, e1, plan_nodes(ev, 0, ev.len() as int, None), r)
    }
}

/// One way the walk over an HTML page goes, with the traverser `t` for the
/// page: the page's URL is recorded as metadata (`eb` the graph after that,
/// `ru` its outcome), then the page is walked.
pub open spec fn page_scraped_via(t: Traverser, ea: Engine, eb: Engine, e1: Engine, ru: Result<(), PiErrorKind>, doc: Seq<char>, r: Result<(), PiErrorKind>) -> bool {
    &&& eb.wf()
    &&& metadata_recorded(t, ea, eb, "url"@, t.webpage_url@, ru)
    &&& match ru {
        Err(k) => r == Err::<(), PiErrorKind>(k) && e1 == eb,
        Ok(_) => page_walked(t, eb, e1, doc, r),
    }
}

/// What scraping does once the page has its metadata node `mid`, in graph
/// `ea`: it finds the domain of the page's link and the page's URL, and the
/// project settings of the link; text that is not HTML is left alone.
pub open spec fn scraped_with_metadata(ea: Engine, e1: Engine, node: crate::engine::node::NodeItemView, link_id: NodeId, link: Link, mid: NodeId, r: Result<(), PiErrorKind>) -> bool {
    match domain_of_node(&ea, link_id) {
        Err(k) => r == Err::<(), PiErrorKind>(k) && e1 == ea,
        Ok(None) => r == Err::<(), PiErrorKind>(PiErrorKind::InternalError) && e1 == ea,
        Ok(Some(did)) => match ea.node_map()[did].payload {
            PayloadView::Text(name) => match url_parsed("https://"@ + name@ + link.spec_full_link()) {
                None => r == Err::<(), PiErrorKind>(PiErrorKind::InternalError) && e1 == ea,
                Some(p) => match node.payload {
                    PayloadView::Text(s) => if !has_substring(lowercase(s@), "<html"@) {
                        r is Ok && e1 == ea
                    } else {
                        exists|t: Traverser, eb: Engine, ru: Result<(), PiErrorKind>| {
                            &&& t.link_node_id == link_id
                            &&& t.web_metadata_node_id == mid
                            &&& t.webpage_node_id == node.id
                            &&& t.webpage_url@ == p.3
                            &&& t.project_settings == settings_of_link(ea, link_id)
                            &&& #[trigger] page_scraped_via(t, ea, eb, e1, ru, s@, r)
                        }
                    },
                    _ => r == Err::<(), PiErrorKind>(PiErrorKind::InternalError) && e1 == ea,
                },
            },
            _ => r == Err::<(), PiErrorKind>(PiErrorKind::GraphError) && e1 == ea,
        },
    }
}

/// What scraping a web page node does to the graph, and its outcome.
pub open spec fn scraped(e0: Engine, e1: Engine, node: crate::engine::node::NodeItemView, r: Result<(), PiErrorKind>) -> bool {
    match link_of_page(&e0, node.id) {
        Err(k) => r == Err::<(), PiErrorKind>(k) && e1 == e0,
        Ok(link_id) => exists|ea: Engine, mid: NodeId, ra: Result<(), PiErrorKind>| {
            &&& ea.wf()
            &&& #[trigger] metadata_ready(e0, ea, node.id, mid, ra)
            &&& match ra {
                Err(k) => r == Err::<(), PiErrorKind>(k) && e1 == ea,
                Ok(_) => scraped_with_metadata(ea, e1, node, link_id, e0.node_map()[link_id].payload->Link_0, mid, r),
            }
        },
    }
}

/// The project settings that apply to a link, with the ID of their node.
pub fn find_settings(engine: &Engine, link_id: NodeId) -> (r: Option<(NodeId, ProjectSettings)>)
    requires
        engine.wf(),
    ensures
        r == settings_of_link(*engine, link_id),
{
    let ids = engine.get_node_ids_connected_with_label(&link_id, &CommonEdgeLabels::RelatedTo);
    let ghost p = settings_pred(*engine);
    let mut i: usize = 0;
    while i < ids.len()
        invariant
            engine.wf(),
            ids@ == connected_ids(engine, link_id, CommonEdgeLabels::RelatedTo),
            i <= ids@.len(),
            p == settings_pred(*engine),
            forall|j: int| 0 <= j < i ==> !p(#[trigger] ids@[j]),
        decreases ids@.len() - i,
    {
        let id = ids[i];
        match engine.get_node_by_id(&id) {
            Some(node) => match &node.payload {
                Payload::ProjectSettings(s) => {
                    proof {
                        lemma_first_where_at(ids@, p, i as int);
                    }
                    return Some((id, *s));
                },
                _ => {},
            },
            None => {},
        }
        assert(!p(ids@[i as int]));
        i = i + 1;
    }
    proof {
        lemma_first_where_none(ids@, p);
    }
    None
}

/// The metadata node of a page: the one it has, or a new one with empty
/// metadata connected as a child of the page.
fn metadata_node_for(engine: &mut Engine, page: NodeId) -> (r: PiResult<NodeId>)
    requires
        old(engine).wf(),
    ensures
        final(engine).wf(),
        metadata_ready(*old(engine), *final(engine), page, match r {
            Ok(id) => id,
            Err(_) => 0,
        }, unit_outcome_of(r)),
{
    let ghost e0 = *engine;
    match get_metadata_of_webpage(engine, &page) {
        Ok((_, id)) => Ok(id),
        Err(_) => {
            let mut labels = Vec::new();
            labels.push(NodeLabel::WebMetadata);
            assert(labels@ =~= seq![NodeLabel::WebMetadata]);
            let d = engine.get_or_add_node(Payload::WebMetadata(WebMetadata::new_empty()), labels, true, None);
            let ghost mid = *engine;
            let ghost dd = d;
            match d {
                Ok(n) => {
                    let id = n.get_node_id();
                    engine.add_connection((page, id), (CommonEdgeLabels::ParentOf, CommonEdgeLabels::ChildOf));
                    assert(metadata_added_via(e0, mid, *engine, dd, page, id, Ok(())));
                    Ok(id)
                },
                Err(e) => {
                    assert(metadata_added_via(e0, mid, *engine, dd, page, 0, Err(e.kind())));
                    Err(e)
                },
            }
        },
    }
}

/// The outcome of an operation that returns an ID, without the ID.
pub open spec fn unit_outcome_of(r: PiResult<NodeId>) -> Result<(), PiErrorKind> {
    match r {
        Ok(_) => Ok(()),
        Err(e) => Err(e.kind()),
    }
}

/// The walk over an HTML page, once the traverser is set up.
fn scrape_page(t: &Traverser, engine: &mut Engine, payload: &String) -> (r: PiResult<()>)
    requires
        old(engine).wf(),
    ensures
        final(engine).wf(),
        exists|eb: Engine, ru: Result<(), PiErrorKind>| #[trigger] page_scraped_via(*t, *old(engine), eb, *final(engine), ru, payload@, unit_outcome(r)),
{
    let ghost ea = *engine;
    let url = t.webpage_url.clone();
    let ru = t.update_metadata_node(engine, "url", url.as_str());
    let ghost eb = *engine;
    let ghost rv = unit_outcome(ru);
    match ru {
        Err(e) => {
            assert(page_scraped_via(*t, ea, eb, *engine, rv, payload@, Err(e.kind())));
            return Err(e);
        },
        Ok(()) => {},
    }
    let ev = html_events(payload.as_str());
    if ev.len() >= usize::MAX - 2 {
        assert(page_scraped_via(*t, ea, eb, *engine, rv, payload@, Err(PiErrorKind::InternalError)));
        return Err(PiError::InternalError(String::from_str("The page is too large to walk")));
    }
    let mut acts: Vec<ScrapeAction> = Vec::new();
    assert(actions_view(acts@) =~= Seq::<ScrapeActionV>::empty());
    plan_nodes_into(&ev, 0, ev.len(), None, &mut acts);
    assert(actions_view(acts@) =~= plan_nodes(ev@, 0, ev@.len() as int, None));
    let r = t.walk(engine, &acts);
    assert(page_scraped_via(*t, ea, eb, *engine, rv, payload@, unit_outcome(r)));
    r
}

/// Scrapes a web page node: records its metadata, and adds its title,
/// headings, paragraphs, lists and links to the graph as children of the
/// page. The page node must be the content of a link whose domain is known.
pub fn scrape(node: &NodeItem, engine: &mut Engine) -> (r: PiResult<()>)
    requires
        old(engine).wf(),
    ensures
        final(engine).wf(),
        scraped(*old(engine), *final(engine), node@, unit_outcome(r)),
{
    let ghost e0 = *engine;
    let (current_link, link_id) = match get_link_of_webpage(engine, &node.id) {
        Ok(x) => x,
        Err(e) => {
            return Err(e);
        },
    };
    let mr = metadata_node_for(engine, node.id);
    let ghost ea = *engine;
    let ghost ra = unit_outcome_of(mr);
    let ghost mid_g = match mr {
        Ok(id) => id,
        Err(_) => 0,
    };
    let metadata_id = match mr {
        Ok(id) => id,
        Err(e) => {
            assert(metadata_ready(e0, ea, node.id, mid_g, ra));
            return Err(e);
        },
    };
    assert(metadata_ready(e0, ea, node.id, metadata_id, Ok(())));
    let name = match Domain::find_existing(engine, FindDomainOf::Node(link_id)) {
        Ok(Some(dn)) => match Domain::get_domain_name(dn) {
            Ok(n) => n,
            Err(e) => {
                return Err(e);
            },
        },
        Ok(None) => {
            return Err(PiError::InternalError(String::from_str("Cannot find domain node for URL")));
        },
        Err(e) => {
            return Err(e);
        },
    };
    let full_link = current_link.get_full_link();
    let full_url = concat3("https://", name.as_str(), full_link.as_str());
    proof {
        reveal_strlit("https://");
    }
    let current_url = match parse_url(full_url.as_str()) {
        Some(p) => p.serialized,
        None => {
            return Err(PiError::InternalError(String::from_str("Cannot parse URL of the page")));
        },
    };
    let project_settings = find_settings(engine, link_id);
    match &node.payload {
        Payload::Text(payload) => {
            let lower = to_lowercase(payload.as_str());
            proof {
                reveal_strlit("<html");
            }
            if !contains_str(lower.as_str(), "<html") {
                return Ok(());
            }
            let traverser = Traverser {
                link_node_id: link_id,
                web_metadata_node_id: metadata_id,
                webpage_node_id: node.id,
                webpage_url: current_url,
                project_settings,
            };
            scrape_page(&traverser, engine, payload)
        },
        _ => Err(PiError::InternalError(String::from_str("Expected a text payload for the web page"))),
    }
}

} // verus!
