use vstd::prelude::*;
use crate::engine::flags::NodeFlags;
use crate::engine::graph::{order_with, Engine};
use crate::engine::labels::{NodeId, NodeLabel};
use crate::engine::node::{labels_contain, ExistingOrNewNodeId, NodeItem, NodeItemView, Payload, PayloadView};
use crate::entity::search::saved_search::{search_term_by_text, SavedSearch};
use crate::entity::web::domain::{domain_by_name, found_id, found_in, Domain, FindDomainOf};
use crate::entity::web::link::{full_link, link_find, opt_str_view, Link};
use crate::error::{PiError, PiErrorKind, PiResult};

verus! {

/// The node that already holds a payload, for payloads that are kept once:
/// domains by name, links by path and query under their domain, and search
/// terms by text. Other payloads are never looked up.
pub open spec fn existing_node(e: &Engine, labels: Seq<NodeLabel>, payload: PayloadView, related: Option<NodeId>) -> Result<Option<NodeId>, PiErrorKind> {
    if labels.contains(NodeLabel::DomainName) {
        match payload {
            PayloadView::Text(d) => Ok(domain_by_name(e, d@)),
            _ => Ok(None),
        }
    } else if labels.contains(NodeLabel::Link) {
        match payload {
            PayloadView::Link(l) => link_find(e, full_link(l.path@, opt_str_view(l.query)), related),
            _ => Ok(None),
        }
    } else if labels.contains(NodeLabel::SearchTerm) {
        match payload {
            PayloadView::Text(t) => Ok(search_term_by_text(e, t@)),
            _ => Ok(None),
        }
    } else {
        Ok(None)
    }
}

/// True when nothing in the engine changed between the two states.
pub open spec fn unchanged(a: &Engine, b: &Engine) -> bool {
    &&& a.node_map() == b.node_map()
    &&& a.node_order() == b.node_order()
    &&& a.edge_map() == b.edge_map()
    &&& a.edge_order() == b.edge_order()
    &&& a.next_node_id() == b.next_node_id()
    &&& a.open_fetch_requests() == b.open_fetch_requests()
    &&& a.project_id() == b.project_id()
    &&& a.outbox() == b.outbox()
}

/// The ID after `id` in the order the engine hands out IDs; it wraps around
/// after the largest `u32`.
pub open spec fn following_id(id: u32) -> u32 {
    if id == u32::MAX {
        0
    } else {
        (id + 1) as u32
    }
}

/// The value before `id`, wrapping around below zero.
pub open spec fn preceding_id(id: u32) -> u32 {
    if id == 0 {
        u32::MAX
    } else {
        (id - 1) as u32
    }
}

/// The effect of `get_or_add_node` with these arguments, and its result.
pub open spec fn get_or_add_effect(old: &Engine, new: &Engine, payload: PayloadView, labels: Seq<NodeLabel>, should_add_new: bool, find_related_to: Option<NodeId>, r: PiResult<ExistingOrNewNodeId>) -> bool {
    match existing_node(old, labels, payload, find_related_to) {
        Err(k) => r matches Err(e) && e.kind() == k && unchanged(new, old),
        Ok(Some(id)) => r == Ok::<ExistingOrNewNodeId, PiError>(ExistingOrNewNodeId::Existing(id))
            && unchanged(new, old),
        Ok(None) => if !should_add_new {
            r matches Err(e) && e.kind() == PiErrorKind::InternalError && unchanged(new, old)
        } else if old.node_map().contains_key(old.next_node_id()) {
            r matches Err(e) && e.kind() == PiErrorKind::InternalError && unchanged(new, old)
        } else {
            let id = old.next_node_id();
            &&& r == Ok::<ExistingOrNewNodeId, PiError>(ExistingOrNewNodeId::New(id))
            &&& new.next_node_id() == following_id(id)
            &&& new.node_map() == old.node_map().insert(
                id,
                NodeItemView {
                    id,
                    labels,
                    payload,
                    flags: NodeFlags { bits: 0 },
                    written_at: new.node_map()[id].written_at,
                },
            )
            &&& new.node_order() == order_with(old.node_order(), id)
            &&& new.edge_map() == old.edge_map()
            &&& new.edge_order() == old.edge_order()
            &&& new.open_fetch_requests() == old.open_fetch_requests()
            &&& new.project_id() == old.project_id()
            &&& new.outbox() == old.outbox()
        },
    }
}

/// The effect of `add_connection` with these arguments.
pub open spec fn connection_effect(old: &Engine, new: &Engine, ids: (NodeId, NodeId), labels: (crate::engine::labels::EdgeLabel, crate::engine::labels::EdgeLabel)) -> bool {
    &&& new.edge_map() == crate::engine::graph::edges_after_connection(old.edge_map(), ids, labels, new.edge_map()[ids.1].written_at)
    &&& new.edge_order() == order_with(order_with(old.edge_order(), ids.0), ids.1)
    &&& new.node_map() == old.node_map()
    &&& new.node_order() == old.node_order()
    &&& new.next_node_id() == old.next_node_id()
    &&& new.open_fetch_requests() == old.open_fetch_requests()
    &&& new.project_id() == old.project_id()
    &&& new.outbox() == old.outbox()
}

impl Engine {
    /// Looks for a node that already holds the payload.
    fn find_existing_node(&self, labels: &Vec<NodeLabel>, payload: &Payload, find_related_to: Option<NodeId>) -> (r: PiResult<Option<NodeId>>)
        requires
            self.wf(),
        ensures
            result_ids(r) == existing_node(self, labels@, payload@, find_related_to),
            r matches Ok(Some(id)) ==> self.node_map().contains_key(id),
    {
        if labels_contain(labels, NodeLabel::DomainName) {
            match payload {
                Payload::Text(domain) => {
                    let r = Domain::find_existing(self, FindDomainOf::DomainName(domain.clone()));
                    match r {
                        Ok(Some(n)) => Ok(Some(n.id)),
                        Ok(None) => Ok(None),
                        Err(e) => Err(e),
                    }
                },
                _ => Ok(None),
            }
        } else if labels_contain(labels, NodeLabel::Link) {
            match payload {
                Payload::Link(link) => {
                    let url = link.get_full_link();
                    let r = Link::find_existing(self, url.as_str(), find_related_to);
                    match r {
                        Ok(Some(n)) => Ok(Some(n.id)),
                        Ok(None) => Ok(None),
                        Err(e) => Err(e),
                    }
                },
                _ => Ok(None),
            }
        } else if labels_contain(labels, NodeLabel::SearchTerm) {
            match payload {
                Payload::Text(term) => {
                    let r = SavedSearch::find_existing(self, term.as_str());
                    match r {
                        Ok(Some(n)) => Ok(Some(n.id)),
                        Ok(None) => Ok(None),
                        Err(e) => Err(e),
                    }
                },
                _ => Ok(None),
            }
        } else {
            Ok(None)
        }
    }

    /// Returns the node that already holds the payload, or adds a new node
    /// with the next ID when `should_add_new` is set. A new node never takes
    /// the ID of a stored one: when the ID counter has come round to a stored
    /// ID (after every `u32` was handed out), nothing is added.
    pub fn get_or_add_node(&mut self, payload: Payload, labels: Vec<NodeLabel>, should_add_new: bool, find_related_to: Option<NodeId>) -> (r: PiResult<ExistingOrNewNodeId>)
        requires
            old(self).wf(),
        ensures
            final(self).wf(),
            get_or_add_effect(old(self), final(self), payload@, labels@, should_add_new, find_related_to, r),
    {
        match self.find_existing_node(&labels, &payload, find_related_to) {
            Ok(Some(id)) => {
                return Ok(ExistingOrNewNodeId::Existing(id));
            },
            Ok(None) => {},
            Err(e) => {
                return Err(e);
            },
        }
        if !should_add_new {
            return Err(PiError::InternalError(String::from_str(
                "Could not find existing node and should not add new node",
            )));
        }
        let next = self.peek_next_node_id();
        if self.get_node_by_id(&next).is_some() {
            return Err(PiError::InternalError(String::from_str("No unused node ID is left")));
        }
        let id = self.take_next_node_id();
        self.create_node(id, payload, labels);
        Ok(ExistingOrNewNodeId::New(id))
    }
}

/// The IDs of a lookup result, or the kind of its error.
pub open spec fn result_ids(r: PiResult<Option<NodeId>>) -> Result<Option<NodeId>, PiErrorKind> {
    match r {
        Ok(v) => Ok(v),
        Err(e) => Err(e.kind()),
    }
}

} // verus!
