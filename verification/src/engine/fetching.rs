use vstd::prelude::*;
use crate::engine::flags::{NodeFlags, IS_BLOCKED_BIT, IS_REQUESTING_BIT};
use crate::engine::graph::{connected_ids, with_toggled, Engine};
use crate::engine::labels::{CommonEdgeLabels, NodeId, NodeLabel};
use crate::engine::node::{labels_contain, Payload, PayloadView};
use crate::engine::ops::following_id;
use crate::entity::web::domain::{domain_of_node, Domain, FindDomainOf};
use crate::error::{PiError, PiErrorKind, PiResult};
use crate::fetch::{internal_request, FetchRequest, FetchRequestView, InternalFetchRequest};
use crate::robots::{robots_allows, robots_decision};
use crate::text::concat;

verus! {

/// The most fetch requests that may be open at a time.
pub const MAX_OPEN_FETCH_REQUESTS: u32 = 5;

/// The agent name under which `robots.txt` files are read.
pub const ROBOTS_AGENT: &'static str = "Pixlie AI";

/// What the engine does with a fetch request.
pub enum FetchOutcome {
    /// Nothing now; the node may ask again later.
    Skip,
    /// The request is refused with an error of this kind.
    Fail(PiErrorKind),
    /// The request goes to the fetcher, rate-limited under this domain name.
    Send(Seq<char>),
}

/// The node whose domain a fetch goes to: for a link, the domain node it
/// belongs to; for a domain node, itself.
pub open spec fn fetch_domain(e: &Engine, id: NodeId) -> Result<NodeId, PiErrorKind> {
    let n = e.node_map()[id];
    if n.labels.contains(NodeLabel::Link) {
        if n.payload is Link {
            match domain_of_node(e, id) {
                Ok(Some(d)) => Ok(d),
                Ok(None) => Err(PiErrorKind::GraphError),
                Err(k) => Err(k),
            }
        } else {
            Err(PiErrorKind::InternalError)
        }
    } else if n.labels.contains(NodeLabel::DomainName) {
        if n.payload is Text {
            Ok(id)
        } else {
            Err(PiErrorKind::GraphError)
        }
    } else {
        Err(PiErrorKind::InternalError)
    }
}

/// The verdict of the first `robots.txt` among the nodes a domain owns: the
/// first listed node with a text payload. An empty file allows everything;
/// a file that cannot be parsed, or that disallows the URL, refuses it.
pub open spec fn robots_verdict(e: &Engine, ids: Seq<NodeId>, url: Seq<char>) -> Result<(), PiErrorKind>
    decreases ids.len(),
{
    if ids.len() == 0 {
        Ok(())
    } else if e.node_map().contains_key(ids[0]) && e.node_map()[ids[0]].payload is Text {
        let t = e.node_map()[ids[0]].payload->Text_0@;
        if t.len() == 0 {
            Ok(())
        } else {
            match robots_decision(ROBOTS_AGENT@, t, url) {
                Some(true) => Ok(()),
                _ => Err(PiErrorKind::FetchError),
            }
        }
    } else {
        robots_verdict(e, ids.subrange(1, ids.len() as int), url)
    }
}

/// What `Engine::fetch` does with a request.
pub open spec fn fetch_outcome(e: &Engine, request: FetchRequestView) -> FetchOutcome {
    let id = request.requesting_node_id;
    if e.open_fetch_requests() >= MAX_OPEN_FETCH_REQUESTS {
        FetchOutcome::Skip
    } else if !e.node_map().contains_key(id) {
        FetchOutcome::Fail(PiErrorKind::GraphError)
    } else if e.node_map()[id].flags.has(NodeFlags { bits: IS_REQUESTING_BIT }) {
        FetchOutcome::Skip
    } else if e.node_map()[id].flags.has(NodeFlags { bits: IS_BLOCKED_BIT }) {
        FetchOutcome::Fail(PiErrorKind::FetchError)
    } else {
        match fetch_domain(e, id) {
            Err(k) => FetchOutcome::Fail(k),
            Ok(did) => {
                let d = e.node_map()[did];
                let name = d.payload->Text_0@;
                if d.flags.has(NodeFlags { bits: IS_BLOCKED_BIT }) {
                    FetchOutcome::Skip
                } else if id != did {
                    let owned = connected_ids(e, did, CommonEdgeLabels::OwnerOf);
                    if owned.len() == 0 {
                        FetchOutcome::Skip
                    } else {
                        match robots_verdict(e, owned, request.url) {
                            Err(k) => FetchOutcome::Fail(k),
                            Ok(()) => FetchOutcome::Send(name),
                        }
                    }
                } else {
                    FetchOutcome::Send(name)
                }
            },
        }
    }
}

/// What `Engine::fetch_api` does with a request.
pub open spec fn fetch_api_outcome(e: &Engine, request: FetchRequestView) -> FetchOutcome {
    let id = request.requesting_node_id;
    if e.open_fetch_requests() >= MAX_OPEN_FETCH_REQUESTS {
        FetchOutcome::Skip
    } else if !e.node_map().contains_key(id) {
        FetchOutcome::Fail(PiErrorKind::GraphError)
    } else if e.node_map()[id].flags.has(NodeFlags { bits: IS_REQUESTING_BIT }) {
        FetchOutcome::Skip
    } else if e.node_map()[id].flags.has(NodeFlags { bits: IS_BLOCKED_BIT }) {
        FetchOutcome::Fail(PiErrorKind::FetchError)
    } else {
        FetchOutcome::Send(Seq::empty())
    }
}

/// The effect of a fetch decision on the engine.
pub open spec fn fetch_effect(old: &Engine, new: &Engine, request: FetchRequestView, outcome: FetchOutcome, r: PiResult<()>) -> bool {
    match outcome {
        FetchOutcome::Skip => r is Ok && crate::engine::ops::unchanged(new, old),
        FetchOutcome::Fail(k) => r matches Err(e) && e.kind() == k && crate::engine::ops::unchanged(new, old),
        FetchOutcome::Send(domain) => {
            let id = request.requesting_node_id;
            &&& r is Ok
            &&& new.node_map() == old.node_map().insert(
                id,
                with_toggled(old.node_map()[id], NodeFlags { bits: IS_REQUESTING_BIT }, new.node_map()[id].written_at),
            )
            &&& new.open_fetch_requests() == following_id(old.open_fetch_requests())
            &&& new.outbox() == old.outbox().push(internal_request(request, old.project_id(), domain))
            &&& new.node_order() == old.node_order()
            &&& new.edge_map() == old.edge_map()
            &&& new.edge_order() == old.edge_order()
            &&& new.next_node_id() == old.next_node_id()
            &&& new.project_id() == old.project_id()
        },
    }
}

impl Engine {
    /// Checks a URL against the first `robots.txt` among the given nodes.
    fn check_robots(&self, owned: &Vec<NodeId>, url: &str) -> (r: PiResult<()>)
        requires
            self.wf(),
        ensures
            match r {
                Ok(()) => robots_verdict(self, owned@, url@) == Ok::<(), PiErrorKind>(()),
                Err(e) => robots_verdict(self, owned@, url@) == Err::<(), PiErrorKind>(e.kind()),
            },
    {
        let mut i: usize = 0;
        assert(owned@.subrange(0, owned@.len() as int) =~= owned@);
        while i < owned.len()
            invariant
                self.wf(),
                i <= owned@.len(),
                robots_verdict(self, owned@, url@) == robots_verdict(self, owned@.subrange(i as int, owned@.len() as int), url@),
            decreases owned@.len() - i,
        {
            let ghost rest = owned@.subrange(i as int, owned@.len() as int);
            assert(rest[0] == owned@[i as int]);
            match self.get_node_by_id(&owned[i]) {
                Some(node) => match &node.payload {
                    Payload::Text(robots_txt) => {
                        if robots_txt.unicode_len() == 0 {
                            return Ok(());
                        }
                        let agent = ROBOTS_AGENT;
                        match robots_allows(agent, robots_txt.as_str(), url) {
                            Some(true) => {
                                return Ok(());
                            },
                            Some(false) => {
                                return Err(PiError::FetchError(concat("URL is not allowed to crawl by robots.txt: ", url)));
                            },
                            None => {
                                return Err(PiError::FetchError(String::from_str("Error parsing robots.txt")));
                            },
                        }
                    },
                    _ => {},
                },
                None => {},
            }
            assert(rest.subrange(1, rest.len() as int) =~= owned@.subrange(i as int + 1, owned@.len() as int));
            i = i + 1;
        }
        Ok(())
    }

    /// Sends a node's request to the fetcher when the node, its domain and
    /// the domain's `robots.txt` allow it, and at most five requests are open.
    /// The request is queued in the outbox and the node is marked as
    /// requesting.
    pub fn fetch(&mut self, fetch_request: FetchRequest) -> (r: PiResult<()>)
        requires
            old(self).wf(),
        ensures
            final(self).wf(),
            fetch_effect(old(self), final(self), fetch_request@, fetch_outcome(old(self), fetch_request@), r),
    {
        proof {
            self.lemma_wf();
        }
        if self.count_open_fetch_requests_at_limit() {
            return Ok(());
        }
        let id = fetch_request.requesting_node_id;
        let (domain_id, domain_name) = {
            let calling_node = match self.get_node_by_id(&id) {
                Some(node) => node,
                None => {
                    return Err(PiError::GraphError(concat("Cannot find link node for URL ", fetch_request.url.as_str())));
                },
            };
            if calling_node.flags.contains(NodeFlags::is_requesting()) {
                return Ok(());
            }
            if calling_node.flags.contains(NodeFlags::is_blocked()) {
                return Err(PiError::FetchError(concat("Cannot fetch URL since it is blocked: ", fetch_request.url.as_str())));
            }
            let domain = if labels_contain(&calling_node.labels, NodeLabel::Link) {
                match &calling_node.payload {
                    Payload::Link(_) => {
                        match Domain::find_existing(self, FindDomainOf::Node(id)) {
                            Ok(Some(d)) => d,
                            Ok(None) => {
                                return Err(PiError::GraphError(concat("Cannot find domain node for URL ", fetch_request.url.as_str())));
                            },
                            Err(e) => {
                                return Err(e);
                            },
                        }
                    },
                    _ => {
                        return Err(PiError::InternalError(String::from_str("Expected a Link node")));
                    },
                }
            } else if labels_contain(&calling_node.labels, NodeLabel::DomainName) {
                match &calling_node.payload {
                    Payload::Text(_) => calling_node,
                    _ => {
                        return Err(PiError::GraphError(concat("Cannot find domain node for URL ", fetch_request.url.as_str())));
                    },
                }
            } else {
                return Err(PiError::InternalError(String::from_str("Expected either a Link or Domain node")));
            };
            if domain.flags.contains(NodeFlags::is_blocked()) {
                return Ok(());
            }
            let domain_name = match Domain::get_domain_name(domain) {
                Ok(name) => name,
                Err(e) => {
                    return Err(e);
                },
            };
            if id != domain.id {
                let owned = self.get_node_ids_connected_with_label(&domain.id, &CommonEdgeLabels::OwnerOf);
                if owned.len() == 0 {
                    return Ok(());
                }
                match self.check_robots(&owned, fetch_request.url.as_str()) {
                    Ok(()) => {},
                    Err(e) => {
                        return Err(e);
                    },
                }
            }
            (domain.id, domain_name)
        };
        self.toggle_flag(&id, NodeFlags::is_requesting());
        self.count_request_opened();
        let project_id = self.project_uuid_clone();
        let request = InternalFetchRequest::from_request_to_engine(fetch_request, project_id, domain_name);
        self.push_outbox(request);
        Ok(())
    }

    /// Sends a node's request to an outside API when the node allows it and
    /// at most five requests are open. The request is queued in the outbox,
    /// with no domain, and the node is marked as requesting.
    pub fn fetch_api(&mut self, fetch_request: FetchRequest) -> (r: PiResult<()>)
        requires
            old(self).wf(),
        ensures
            final(self).wf(),
            fetch_effect(old(self), final(self), fetch_request@, fetch_api_outcome(old(self), fetch_request@), r),
    {
        proof {
            self.lemma_wf();
        }
        if self.count_open_fetch_requests_at_limit() {
            return Ok(());
        }
        let id = fetch_request.requesting_node_id;
        {
            let calling_node = match self.get_node_by_id(&id) {
                Some(node) => node,
                None => {
                    return Err(PiError::GraphError(concat("Cannot find link node for URL ", fetch_request.url.as_str())));
                },
            };
            if calling_node.flags.contains(NodeFlags::is_requesting()) {
                return Ok(());
            }
            if calling_node.flags.contains(NodeFlags::is_blocked()) {
                return Err(PiError::FetchError(concat("Cannot fetch URL since it is blocked: ", fetch_request.url.as_str())));
            }
        }
        self.toggle_flag(&id, NodeFlags::is_requesting());
        self.count_request_opened();
        let project_id = self.project_uuid_clone();
        let request = InternalFetchRequest::from_request_to_engine(fetch_request, project_id, String::new());
        self.push_outbox(request);
        Ok(())
    }
}

} // verus!
