use vstd::prelude::*;
use crate::engine::graph::Engine;
use crate::engine::labels::{NodeId, NodeLabel};
use crate::engine::node::{labels_contain, NodeItem, NodeItemView};
use crate::entity::classifier::{classifier_effect, Classification, Classifier};
use crate::entity::named_entity::{extraction_plan, EntityExtraction, EntityName};
use crate::entity::objective::{objective_effect, Objective};
use crate::entity::pixlie::LLMResponse;
use crate::entity::search::web_search::{search_effect, BraveSearchResponse, WebSearch};
use crate::entity::web::domain::{domain_processed, Domain};
use crate::entity::web::link::{link_processed, Link};
use crate::entity::web::scraper::{scraped, unit_outcome};
use crate::entity::web::web_page::WebPage;
use crate::error::{PiError, PiErrorKind, PiResult};
use crate::fetch::{ExternalData, ReplyData};

verus! {

/// The keys and the model that the engine uses to reach outside services.
pub struct ServiceAccess {
    pub anthropic_api_key: Option<String>,
    pub brave_search_api_key: Option<String>,
    pub model: String,
}

/// How a node is processed, by the first of its labels that has a process:
/// domain, link, objective, web search, web page.
#[derive(Clone, Copy, Debug, PartialEq, Eq, Structural)]
pub enum NodeKind {
    Domain,
    Link,
    Objective,
    WebSearch,
    WebPage,
    Other,
}

/// The kind of a node with these labels.
pub open spec fn kind_of(labels: Seq<NodeLabel>) -> NodeKind {
    if labels.contains(NodeLabel::DomainName) {
        NodeKind::Domain
    } else if labels.contains(NodeLabel::Link) {
        NodeKind::Link
    } else if labels.contains(NodeLabel::Objective) {
        NodeKind::Objective
    } else if labels.contains(NodeLabel::WebSearch) {
        NodeKind::WebSearch
    } else if labels.contains(NodeLabel::WebPage) {
        NodeKind::WebPage
    } else {
        NodeKind::Other
    }
}

/// The kind of a node.
pub fn node_kind(node: &NodeItem) -> (r: NodeKind)
    ensures
        r == kind_of(node@.labels),
{
    if labels_contain(&node.labels, NodeLabel::DomainName) {
        NodeKind::Domain
    } else if labels_contain(&node.labels, NodeLabel::Link) {
        NodeKind::Link
    } else if labels_contain(&node.labels, NodeLabel::Objective) {
        NodeKind::Objective
    } else if labels_contain(&node.labels, NodeLabel::WebSearch) {
        NodeKind::WebSearch
    } else if labels_contain(&node.labels, NodeLabel::WebPage) {
        NodeKind::WebPage
    } else {
        NodeKind::Other
    }
}

/// What arrived for a node, read into the shape that its kind expects.
pub enum NodeReply {
    /// For a domain or a link: the fetched text, or the failure.
    Raw(ExternalData),
    Objective(ReplyData<LLMResponse>),
    WebSearch(ReplyData<BraveSearchResponse>),
    /// For a web page: the classification of its content.
    WebPage(ReplyData<Classification>),
}

/// What extracting entities from a page calls for: its content and the
/// kinds of entities to look for.
pub type EntityWork = Option<(String, Vec<EntityName>)>;

/// The plain values of entity work.
pub open spec fn work_view(w: EntityWork) -> Option<(Seq<char>, Seq<EntityName>)> {
    match w {
        Some((c, k)) => Some((c@, k@)),
        None => None,
    }
}

/// A result with entity work, without the work.
pub open spec fn without_work(r: PiResult<EntityWork>) -> PiResult<()> {
    match r {
        Ok(_) => Ok(()),
        Err(e) => Err(e),
    }
}

/// True when the result, if a success, calls for no entity work.
pub open spec fn no_work(r: PiResult<EntityWork>) -> bool {
    r matches Ok(w) ==> w is None
}

/// The last step of processing a page, once it was scraped and classified
/// with outcome `rb`: the entity work that it calls for.
pub open spec fn page_finished(eb: Engine, e1: Engine, id: NodeId, rb: Result<(), PiErrorKind>, r: PiResult<EntityWork>) -> bool {
    &&& e1 == eb
    &&& match rb {
        Err(k) => r matches Err(x) && x.kind() == k,
        Ok(_) => match extraction_plan(eb, id) {
            Err(k) => r matches Err(x) && x.kind() == k,
            Ok(p) => r matches Ok(w) && work_view(w) == p,
        },
    }
}

/// One way a web page is processed: it is scraped (`ea` the graph after
/// that, `ra` the outcome), classified (`eb` the graph after that, `rc` the
/// result), and the entity work it calls for is worked out.
pub open spec fn page_processed_via(e0: Engine, ea: Engine, eb: Engine, e1: Engine, ra: Result<(), PiErrorKind>, rc: PiResult<()>, n: NodeItemView, data: Option<ReplyData<Classification>>, access: ServiceAccess, r: PiResult<EntityWork>) -> bool {
    &&& ea.wf()
    &&& scraped(e0, ea, n, ra)
    &&& match ra {
        Err(k) => r matches Err(x) && x.kind() == k && e1 == ea,
        Ok(_) => classifier_effect(ea, eb, n.id, data, access.anthropic_api_key, access.model@, rc) && page_finished(
            eb,
            e1,
            n.id,
            unit_outcome(rc),
            r,
        ),
    }
}

/// What processing a web page does, for what has arrived for it.
pub open spec fn page_processed(e0: Engine, e1: Engine, n: NodeItemView, data: Option<ReplyData<Classification>>, access: ServiceAccess, r: PiResult<EntityWork>) -> bool {
    exists|ea: Engine, eb: Engine, ra: Result<(), PiErrorKind>, rc: PiResult<()>|
        #[trigger] page_processed_via(e0, ea, eb, e1, ra, rc, n, data, access, r)
}

/// What processing a node that has received nothing yet does.
pub open spec fn node_processed(e0: Engine, e1: Engine, n: NodeItemView, access: ServiceAccess, r: PiResult<EntityWork>) -> bool {
    match kind_of(n.labels) {
        NodeKind::Domain => no_work(r) && domain_processed(&e0, &e1, n.id, None, without_work(r)),
        NodeKind::Link => no_work(r) && link_processed(&e0, &e1, n.id, n.payload, None, without_work(r)),
        NodeKind::Objective => no_work(r) && objective_effect(
            e0,
            e1,
            n,
            None,
            access.anthropic_api_key,
            access.model@,
            without_work(r),
        ),
        NodeKind::WebSearch => no_work(r) && search_effect(e0, e1, n, None, access.brave_search_api_key, without_work(r)),
        NodeKind::WebPage => page_processed(e0, e1, n, None, access, r),
        NodeKind::Other => r == Ok::<EntityWork, PiError>(None) && e1 == e0,
    }
}

/// What handling a reply for a node does. A reply of the wrong shape for
/// the node is an `InternalError`.
pub open spec fn reply_handled(e0: Engine, e1: Engine, n: NodeItemView, reply: NodeReply, access: ServiceAccess, r: PiResult<EntityWork>) -> bool {
    match (kind_of(n.labels), reply) {
        (NodeKind::Domain, NodeReply::Raw(d)) => no_work(r) && domain_processed(&e0, &e1, n.id, Some(d), without_work(r)),
        (NodeKind::Link, NodeReply::Raw(d)) => no_work(r) && link_processed(&e0, &e1, n.id, n.payload, Some(d), without_work(r)),
        (NodeKind::Objective, NodeReply::Objective(d)) => no_work(r) && objective_effect(
            e0,
            e1,
            n,
            Some(d),
            access.anthropic_api_key,
            access.model@,
            without_work(r),
        ),
        (NodeKind::WebSearch, NodeReply::WebSearch(d)) => no_work(r) && search_effect(
            e0,
            e1,
            n,
            Some(d),
            access.brave_search_api_key,
            without_work(r),
        ),
        (NodeKind::WebPage, NodeReply::WebPage(d)) => page_processed(e0, e1, n, Some(d), access, r),
        (NodeKind::Other, _) => r == Ok::<EntityWork, PiError>(None) && e1 == e0,
        _ => r matches Err(x) && x.kind() == PiErrorKind::InternalError && e1 == e0,
    }
}

/// A result without a value, as a result that calls for no entity work.
fn with_no_work(r: PiResult<()>) -> (w: PiResult<EntityWork>)
    ensures
        without_work(w) == r,
        no_work(w),
{
    match r {
        Ok(u) => {
            assert(u == ());
            Ok(None)
        },
        Err(e) => Err(e),
    }
}

/// Processes a web page: scrapes it, classifies it, and works out the
/// entity work it calls for.
fn process_page(node: &NodeItem, engine: &mut Engine, data: Option<ReplyData<Classification>>, access: &ServiceAccess) -> (r: PiResult<EntityWork>)
    requires
        old(engine).wf(),
    ensures
        final(engine).wf(),
        page_processed(*old(engine), *final(engine), node@, data, *access, r),
{
    let ghost e0 = *engine;
    let ghost dd = data;
    let s = WebPage::process(node, engine, None);
    let ghost ea = *engine;
    let ghost ra = unit_outcome(s);
    match s {
        Err(e) => {
            assert(page_processed_via(e0, ea, ea, *engine, ra, Ok(()), node@, dd, *access, Err(e)));
            return Err(e);
        },
        Ok(()) => {},
    }
    let c = Classifier::process(node, engine, data, access.anthropic_api_key.clone(), access.model.as_str());
    let ghost eb = *engine;
    let ghost cc = c;
    let r = match c {
        Err(e) => Err(e),
        Ok(()) => EntityExtraction::plan(node, engine),
    };
    assert(page_finished(eb, *engine, node.id, unit_outcome(cc), r));
    assert(page_processed_via(e0, ea, eb, *engine, ra, cc, node@, dd, *access, r));
    r
}

impl NodeItem {
    /// Processes a node that has received nothing yet, by its kind. A web
    /// page is scraped and classified, and hands back the entity extraction
    /// it calls for.
    pub fn process(&self, engine: &mut Engine, access: &ServiceAccess) -> (r: PiResult<EntityWork>)
        requires
            old(engine).wf(),
        ensures
            final(engine).wf(),
            node_processed(*old(engine), *final(engine), self@, *access, r),
    {
        match node_kind(self) {
            NodeKind::Domain => with_no_work(Domain::process(self, engine, None)),
            NodeKind::Link => with_no_work(Link::process(self, engine, None)),
            NodeKind::Objective => with_no_work(
                Objective::process(self, engine, None, access.anthropic_api_key.clone(), access.model.as_str()),
            ),
            NodeKind::WebSearch => with_no_work(WebSearch::process(self, engine, None, access.brave_search_api_key.clone())),
            NodeKind::WebPage => process_page(self, engine, None, access),
            NodeKind::Other => Ok(None),
        }
    }

    /// Handles what arrived for a node, by its kind: a fetched text or a
    /// failure for a domain or a link, the reply of a model or a search for
    /// an objective, a web search or a web page.
    pub fn handle_reply(&self, engine: &mut Engine, reply: NodeReply, access: &ServiceAccess) -> (r: PiResult<EntityWork>)
        requires
            old(engine).wf(),
        ensures
            final(engine).wf(),
            reply_handled(*old(engine), *final(engine), self@, reply, *access, r),
    {
        match (node_kind(self), reply) {
            (NodeKind::Domain, NodeReply::Raw(d)) => with_no_work(Domain::process(self, engine, Some(d))),
            (NodeKind::Link, NodeReply::Raw(d)) => with_no_work(Link::process(self, engine, Some(d))),
            (NodeKind::Objective, NodeReply::Objective(d)) => with_no_work(
                Objective::process(self, engine, Some(d), access.anthropic_api_key.clone(), access.model.as_str()),
            ),
            (NodeKind::WebSearch, NodeReply::WebSearch(d)) => with_no_work(
                WebSearch::process(self, engine, Some(d), access.brave_search_api_key.clone()),
            ),
            (NodeKind::WebPage, NodeReply::WebPage(d)) => process_page(self, engine, Some(d), access),
            (NodeKind::Other, _) => Ok(None),
            _ => Err(PiError::InternalError(String::from_str("The reply does not fit the kind of the node"))),
        }
    }
}

} // verus!

verus! {

use crate::engine::flags::{NodeFlags, IS_REQUESTING_BIT};
use crate::engine::graph::toggled_in;
use crate::engine::ops::preceding_id;

/// The graph after a request of node `id` came back: the node is no longer
/// marked as requesting and one request fewer is open.
pub open spec fn request_closed(e0: Engine, e1: Engine, id: NodeId) -> bool {
    &&& e1.node_map() == toggled_in(e0.node_map(), id, NodeFlags { bits: IS_REQUESTING_BIT }, e1.node_map()[id].written_at)
    &&& e1.open_fetch_requests() == preceding_id(e0.open_fetch_requests())
    &&& e1.node_order() == e0.node_order()
    &&& e1.edge_map() == e0.edge_map()
    &&& e1.edge_order() == e0.edge_order()
    &&& e1.next_node_id() == e0.next_node_id()
    &&& e1.project_id() == e0.project_id()
    &&& e1.outbox() == e0.outbox()
}

impl Engine {
    /// Takes note that the request of a node came back: the node is no
    /// longer marked as requesting and one request fewer is open. Returns
    /// the node as it was, to handle what arrived; nothing happens when
    /// there is no node with that ID.
    pub fn finish_request(&mut self, node_id: NodeId) -> (r: Option<NodeItem>)
        requires
            old(self).wf(),
        ensures
            final(self).wf(),
            match r {
                None => !old(self).node_map().contains_key(node_id) && *final(self) == *old(self),
                Some(n) => old(self).node_map().contains_key(node_id) && n@ == old(self).node_map()[node_id]
                    && request_closed(*old(self), *final(self), node_id),
            },
    {
        let node = match self.get_node_by_id(&node_id) {
            Some(n) => n.clone(),
            None => {
                return None;
            },
        };
        self.toggle_flag(&node_id, NodeFlags::is_requesting());
        self.count_request_closed();
        Some(node)
    }

    /// Processes the node with the given ID, if there is one.
    pub fn process_node_by_id(&mut self, node_id: NodeId, access: &ServiceAccess) -> (r: PiResult<EntityWork>)
        requires
            old(self).wf(),
        ensures
            final(self).wf(),
            old(self).node_map().contains_key(node_id) ==> node_processed(
                *old(self),
                *final(self),
                old(self).node_map()[node_id],
                *access,
                r,
            ),
            !old(self).node_map().contains_key(node_id) ==> r == Ok::<EntityWork, PiError>(None) && *final(self)
                == *old(self),
    {
        let node = match self.get_node_by_id(&node_id) {
            Some(n) => n.clone(),
            None => {
                return Ok(None);
            },
        };
        node.process(self, access)
    }
}

} // verus!
