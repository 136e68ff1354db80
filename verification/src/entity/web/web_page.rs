use vstd::prelude::*;
use crate::engine::graph::{connected_ids, Engine};
use crate::engine::labels::{CommonEdgeLabels, NodeId};
use crate::engine::node::{Payload, PayloadView};
use crate::entity::web::link::Link;
use crate::entity::web::metadata::WebMetadata;
use crate::error::{PiError, PiErrorKind, PiResult};

verus! {

/// A page fetched for a link; its node holds the page's text.
pub struct WebPage;

/// The node that a web page node is attached to by its first edge with the
/// given label, when that node exists and holds the expected payload.
/// `InternalError` when there is no such edge or node, `GraphError` when the
/// node holds another payload.
pub open spec fn first_attached(e: &Engine, id: NodeId, label: CommonEdgeLabels, expected: spec_fn(PayloadView) -> bool) -> Result<NodeId, PiErrorKind> {
    let ids = connected_ids(e, id, label);
    if ids.len() == 0 {
        Err(PiErrorKind::InternalError)
    } else if !e.node_map().contains_key(ids[0]) {
        Err(PiErrorKind::InternalError)
    } else if expected(e.node_map()[ids[0]].payload) {
        Ok(ids[0])
    } else {
        Err(PiErrorKind::GraphError)
    }
}

/// The link node whose content a web page node holds.
pub open spec fn link_of_page(e: &Engine, id: NodeId) -> Result<NodeId, PiErrorKind> {
    first_attached(e, id, CommonEdgeLabels::ContentOf, |p: PayloadView| p is Link)
}

/// The metadata node of a web page node: the first node that the page has a
/// `ChildOf` edge to.
pub open spec fn metadata_of_page(e: &Engine, id: NodeId) -> Result<NodeId, PiErrorKind> {
    first_attached(e, id, CommonEdgeLabels::ChildOf, |p: PayloadView| p is WebMetadata)
}

/// The link of a web page node, with the ID of the link node.
pub fn get_link_of_webpage(engine: &Engine, node_id: &NodeId) -> (r: PiResult<(Link, NodeId)>)
    requires
        engine.wf(),
    ensures
        match r {
            Ok((link, id)) => link_of_page(engine, *node_id) == Ok::<NodeId, PiErrorKind>(id)
                && engine.node_map()[id].payload == PayloadView::Link(link),
            Err(e) => link_of_page(engine, *node_id) == Err::<NodeId, PiErrorKind>(e.kind()),
        },
{
    let ids = engine.get_node_ids_connected_with_label(node_id, &CommonEdgeLabels::ContentOf);
    if ids.len() == 0 {
        return Err(PiError::InternalError(String::from_str("No related node ids found for WebPage node")));
    }
    let first = ids[0];
    match engine.get_node_by_id(&first) {
        Some(node) => match &node.payload {
            Payload::Link(link) => Ok((link.clone(), first)),
            _ => Err(PiError::GraphError(String::from_str("Cannot find parent Link node for WebPage node"))),
        },
        None => Err(PiError::InternalError(String::from_str("Node of the link not found"))),
    }
}

/// The metadata of a web page node, with the ID of the metadata node.
pub fn get_metadata_of_webpage(engine: &Engine, node_id: &NodeId) -> (r: PiResult<(WebMetadata, NodeId)>)
    requires
        engine.wf(),
    ensures
        match r {
            Ok((m, id)) => metadata_of_page(engine, *node_id) == Ok::<NodeId, PiErrorKind>(id)
                && engine.node_map()[id].payload == PayloadView::WebMetadata(m@),
            Err(e) => metadata_of_page(engine, *node_id) == Err::<NodeId, PiErrorKind>(e.kind()),
        },
{
    let ids = engine.get_node_ids_connected_with_label(node_id, &CommonEdgeLabels::ChildOf);
    if ids.len() == 0 {
        return Err(PiError::InternalError(String::from_str("No related node ids found for WebPage node")));
    }
    let first = ids[0];
    match engine.get_node_by_id(&first) {
        Some(node) => match &node.payload {
            Payload::WebMetadata(m) => Ok((m.clone(), first)),
            _ => Err(PiError::GraphError(String::from_str("Cannot find child WebMetadata node for WebPage node"))),
        },
        None => Err(PiError::InternalError(String::from_str("Node of the metadata not found"))),
    }
}

} // verus!

verus! {

use crate::engine::node::NodeItem;
use crate::entity::web::scraper::{scrape, scraped, unit_outcome};
use crate::fetch::ExternalData;

impl WebPage {
    /// Processes a web page node by scraping it; no fetched data is used.
    pub fn process(node: &NodeItem, engine: &mut Engine, _data_from_previous_request: Option<ExternalData>) -> (r: PiResult<()>)
        requires
            old(engine).wf(),
        ensures
            final(engine).wf(),
            scraped(*old(engine), *final(engine), node@, unit_outcome(r)),
    {
        scrape(node, engine)
    }
}

} // verus!
