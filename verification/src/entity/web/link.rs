use vstd::prelude::*;

verus! {

/// A link to fetch: path and query, relative to the domain it belongs to.
#[derive(Debug)]
pub struct Link {
    pub path: String,
    pub query: Option<String>,
}

impl Clone for Link {
    fn clone(&self) -> (r: Self)
        ensures
            r == *self,
    {
        Link { path: self.path.clone(), query: self.query.clone() }
    }
}

/// The link as written after a domain: the path, then `?` and the query when
/// there is one.
pub open spec fn full_link(path: Seq<char>, query: Option<Seq<char>>) -> Seq<char> {
    match query {
        Some(q) => path + seq!['?'] + q,
        None => path,
    }
}

pub open spec fn opt_str_view(o: Option<String>) -> Option<Seq<char>> {
    match o {
        Some(s) => Some(s@),
        None => None,
    }
}

impl Link {
    pub open spec fn spec_full_link(&self) -> Seq<char> {
        full_link(self.path@, opt_str_view(self.query))
    }

    pub fn get_full_link(&self) -> (r: String)
        ensures
            r@ == self.spec_full_link(),
    {
        let mut url = self.path.clone();
        if let Some(query) = &self.query {
            let sep = "?";
            proof {
                reveal_strlit("?");
            }
            url.append(sep);
            url.append(query.as_str());
        }
        url
    }
}

} // verus!

verus! {

use crate::engine::graph::{
    connected_ids, first_where, lemma_first_where_at, lemma_first_where_none, Engine,
};
use crate::engine::labels::{CommonEdgeLabels, NodeId, NodeLabel};
use crate::engine::node::{labels_contain, NodeItem, NodeItemView, Payload, PayloadView};
use crate::entity::web::domain::{domain_by_name, found_id, found_in, Domain, FindDomainOf};
use crate::error::{PiError, PiErrorKind, PiResult};
use crate::text::{concat, concat3, str_eq};
use crate::web_url::{parse_url, url_parsed};

/// True when the node is a link with the given path and query.
pub open spec fn link_matches(n: NodeItemView, path: Seq<char>, query: Option<Seq<char>>) -> bool {
    match n.payload {
        PayloadView::Link(l) => l.path@ == path && opt_str_view(l.query) == query,
        _ => false,
    }
}

/// The test that an ID names a link node, present in the graph, with the
/// given path and query.
pub open spec fn link_pred(e: &Engine, path: Seq<char>, query: Option<Seq<char>>) -> spec_fn(NodeId) -> bool {
    |id: NodeId| e.node_map().contains_key(id) && link_matches(e.node_map()[id], path, query)
}

/// The domain node under which a link is looked for: the given node, or the
/// domain node named by the host of the URL.
pub open spec fn link_root(e: &Engine, url: Seq<char>, related: Option<NodeId>) -> Result<NodeId, PiErrorKind> {
    match related {
        Some(id) => if e.node_map().contains_key(id) {
            Ok(id)
        } else {
            Err(PiErrorKind::InternalError)
        },
        None => match url_parsed(url) {
            Some(parts) => match parts.0 {
                Some(d) => match domain_by_name(e, d) {
                    Some(id) => Ok(id),
                    None => Err(PiErrorKind::InternalError),
                },
                None => Err(PiErrorKind::InternalError),
            },
            None => Err(PiErrorKind::InternalError),
        },
    }
}

/// What `Link::find_existing` finds: under the root domain node, the first
/// node it owns that is a link with the path and query of
/// `https://<domain><url>`.
pub open spec fn link_find(e: &Engine, url: Seq<char>, related: Option<NodeId>) -> Result<Option<NodeId>, PiErrorKind> {
    match link_root(e, url, related) {
        Err(k) => Err(k),
        Ok(did) => {
            let dn = e.node_map()[did];
            if !dn.labels.contains(NodeLabel::DomainName) {
                Err(PiErrorKind::InternalError)
            } else {
                match dn.payload {
                    PayloadView::Text(domain) => match url_parsed("https://"@ + domain@ + url) {
                        Some(p) => Ok(
                            first_where(
                                connected_ids(e, did, CommonEdgeLabels::OwnerOf),
                                link_pred(e, p.1, p.2),
                            ),
                        ),
                        None => Err(PiErrorKind::InternalError),
                    },
                    _ => Err(PiErrorKind::InternalError),
                }
            }
        },
    }
}

/// The message of the error that `Link::find_existing` returns, when it
/// returns one.
pub open spec fn link_find_message(e: &Engine, url: Seq<char>, related: Option<NodeId>) -> Seq<char> {
    match related {
        Some(id) => if !e.node_map().contains_key(id) {
            "Cannot find node with ID "@ + crate::text::decimal(id as nat) + " for URL "@ + url
        } else {
            link_root_message(e, url, id)
        },
        None => match url_parsed(url) {
            Some(parts) => match parts.0 {
                Some(d) => match domain_by_name(e, d) {
                    Some(id) => link_root_message(e, url, id),
                    None => "Cannot find exiting domain node for URL "@ + url,
                },
                None => "Cannot parse URL "@ + url + " to get domain"@,
            },
            None => "Cannot parse URL "@ + url + " to get domain"@,
        },
    }
}

/// The message of an error found at the root node of a link lookup.
pub open spec fn link_root_message(e: &Engine, url: Seq<char>, did: NodeId) -> Seq<char> {
    let dn = e.node_map()[did];
    if !dn.labels.contains(NodeLabel::DomainName) {
        "Cannot find domain node for URL "@ + url
    } else {
        match dn.payload {
            PayloadView::Text(domain) => "Error parsing URL: "@ + ("https://"@ + domain@ + url),
            _ => "Cannot find domain node for URL "@ + url,
        }
    }
}

impl Link {
    /// Finds the link node for `url` (path and query) under its domain node.
    #[verifier::loop_isolation(false)]
    pub fn find_existing<'a>(engine: &'a Engine, url: &str, find_related_to: Option<NodeId>) -> (r: PiResult<Option<&'a NodeItem>>)
        requires
            engine.wf(),
        ensures
            found_in(engine, r),
            found_id(r) == link_find(engine, url@, find_related_to),
            r matches Err(x) ==> x.message() == link_find_message(engine, url@, find_related_to),
    {
        proof {
            engine.lemma_wf();
        }
        let domain_node: &NodeItem = match find_related_to {
            Some(node_id) => match engine.get_node_by_id(&node_id) {
                Some(node) => node,
                None => {
                    let mut m = String::from_str("Cannot find node with ID ");
                    let digits = crate::text::decimal_string(node_id as u64);
                    m.append(digits.as_str());
                    m.append(" for URL ");
                    m.append(url);
                    return Err(PiError::InternalError(m));
                },
            },
            None => match parse_url(url) {
                Some(parsed) => match parsed.domain {
                    Some(domain) => {
                        match Domain::find_existing(engine, FindDomainOf::DomainName(domain)) {
                            Ok(Some(d)) => d,
                            Ok(None) => {
                                return Err(PiError::InternalError(concat("Cannot find exiting domain node for URL ", url)));
                            },
                            Err(e) => {
                                return Err(e);
                            },
                        }
                    },
                    None => {
                        return Err(PiError::InternalError(concat3("Cannot parse URL ", url, " to get domain")));
                    },
                },
                None => {
                    return Err(PiError::InternalError(concat3("Cannot parse URL ", url, " to get domain")));
                },
            },
        };
        let ghost did = domain_node.id;
        assert(link_root(engine, url@, find_related_to) == Ok::<NodeId, PiErrorKind>(did));
        if !labels_contain(&domain_node.labels, NodeLabel::DomainName) {
            return Err(PiError::InternalError(concat("Cannot find domain node for URL ", url)));
        }
        let full = match &domain_node.payload {
            Payload::Text(domain) => {
                let scheme = "https://";
                proof {
                    reveal_strlit("https://");
                }
                let mut f = String::from_str(scheme);
                f.append(domain.as_str());
                f.append(url);
                f
            },
            _ => {
                return Err(PiError::InternalError(concat("Cannot find domain node for URL ", url)));
            },
        };
        let parsed = match parse_url(full.as_str()) {
            Some(p) => p,
            None => {
                return Err(PiError::InternalError(concat("Error parsing URL: ", full.as_str())));
            },
        };
        let connected = engine.get_node_ids_connected_with_label(&domain_node.id, &CommonEdgeLabels::OwnerOf);
        let ghost p = link_pred(engine, parsed.path@, opt_str_view(parsed.query));
        let mut i: usize = 0;
        while i < connected.len()
            invariant
                engine.wf(),
                i <= connected@.len(),
                p == link_pred(engine, parsed.path@, opt_str_view(parsed.query)),
                forall|j: int| 0 <= j < i ==> !p(#[trigger] connected@[j]),
            decreases connected@.len() - i,
        {
            proof {
                engine.lemma_wf();
            }
            let id = connected[i];
            match engine.get_node_by_id(&id) {
                Some(node) => {
                    match &node.payload {
                        Payload::Link(link) => {
                            let same_query = match (&link.query, &parsed.query) {
                                (Some(a), Some(b)) => str_eq(a.as_str(), b.as_str()),
                                (None, None) => true,
                                _ => false,
                            };
                            if str_eq(link.path.as_str(), parsed.path.as_str()) && same_query {
                                proof {
                                    lemma_first_where_at(connected@, p, i as int);
                                }
                                return Ok(Some(node));
                            }
                        },
                        _ => {},
                    }
                },
                None => {},
            }
            i = i + 1;
        }
        proof {
            lemma_first_where_none(connected@, p);
        }
        Ok(None)
    }
}

} // verus!

verus! {

use crate::engine::flags::{NodeFlags, HAD_ERROR_BIT, IS_PROCESSED_BIT};
use crate::engine::fetching::{fetch_effect, fetch_outcome};
use crate::engine::graph::toggled_in;
use crate::engine::ops::{connection_effect, get_or_add_effect};
use crate::entity::web::domain::{store_fetched_text, stored_fetched_text};
use crate::fetch::{get_request, ExternalData, FetchRequest};
use crate::engine::node::ExistingOrNewNodeId;

/// The domain labels that `Link::add` gives a domain node: the extra labels,
/// with `DomainName` appended when they lack it.
pub open spec fn domain_labels(extra: Seq<NodeLabel>) -> Seq<NodeLabel> {
    if extra.contains(NodeLabel::DomainName) {
        extra
    } else {
        extra.push(NodeLabel::DomainName)
    }
}

/// True when the payload is a link with this path and query.
pub open spec fn is_link_payload(p: PayloadView, path: Seq<char>, query: Option<Seq<char>>) -> bool {
    match p {
        PayloadView::Link(l) => l.path@ == path && opt_str_view(l.query) == query,
        _ => false,
    }
}

/// The effect of processing a link node, and its result.
pub open spec fn link_processed(old: &Engine, new: &Engine, node_id: NodeId, payload: PayloadView, data: Option<ExternalData>, r: PiResult<()>) -> bool {
    &&& !(payload is Link) ==> (r matches Err(e) && e.kind() == PiErrorKind::InternalError
                && crate::engine::ops::unchanged(new, old))
    &&& payload is Link ==> match data {
                None => fetch_effect(
                    old,
                    new,
                    get_request(node_id, payload->Link_0.spec_full_link()),
                    fetch_outcome(old, get_request(node_id, payload->Link_0.spec_full_link())),
                    r,
                ),
                Some(ExternalData::Response(response)) => stored_fetched_text(
                    old,
                    new,
                    node_id,
                    response.contents@,
                    seq![NodeLabel::Content, NodeLabel::WebPage],
                    (CommonEdgeLabels::PathOf, CommonEdgeLabels::ContentOf),
                    NodeFlags { bits: IS_PROCESSED_BIT },
                    r,
                ),
                Some(ExternalData::Error(_)) => r is Ok && new.node_map() == toggled_in(
                    old.node_map(),
                    node_id,
                    NodeFlags { bits: HAD_ERROR_BIT },
                    new.node_map()[node_id].written_at,
                ) && new.node_order() == old.node_order() && new.edge_map()
                    == old.edge_map() && new.edge_order() == old.edge_order()
                    && new.next_node_id() == old.next_node_id()
                    && new.open_fetch_requests() == old.open_fetch_requests()
                    && new.project_id() == old.project_id() && new.outbox()
                    == old.outbox(),
            }
}

/// The effect of `Link::add` with these arguments, and its result.
pub open spec fn link_add_effect(old: &Engine, new: &Engine, url: Seq<char>, labels: Seq<NodeLabel>, domain_extra_labels: Seq<NodeLabel>, should_add_new_domain: bool, r: PiResult<NodeId>) -> bool {
    match url_parsed(url) {
        None => r matches Err(e) && e.kind() == PiErrorKind::GraphError
            && crate::engine::ops::unchanged(new, old),
        Some(parts) => match parts.0 {
            None => r matches Err(e) && e.kind() == PiErrorKind::InternalError
                && crate::engine::ops::unchanged(new, old),
            Some(domain) => exists|e1: Engine, d: PiResult<ExistingOrNewNodeId>, dp: PayloadView| {
                &&& e1.wf()
                &&& dp matches PayloadView::Text(t) && t@ == domain
                &&& get_or_add_effect(
                    old,
                    &e1,
                    dp,
                    domain_labels(domain_extra_labels),
                    should_add_new_domain,
                    None,
                    d,
                )
                &&& match d {
                    Err(de) => r matches Err(e) && e.kind() == de.kind() && crate::engine::ops::unchanged(new, &e1),
                    Ok(did) => exists|e2: Engine, l: PiResult<ExistingOrNewNodeId>, lp: PayloadView| {
                        &&& e2.wf()
                        &&& is_link_payload(lp, parts.1, parts.2)
                        &&& get_or_add_effect(&e1, &e2, lp, labels, true, Some(did.spec_node_id()), l)
                        &&& match l {
                            Err(le) => r matches Err(e) && e.kind() == le.kind() && crate::engine::ops::unchanged(new, &e2),
                            Ok(lid) => r == Ok::<NodeId, PiError>(lid.spec_node_id()) && connection_effect(
                                &e2,
                                new,
                                (did.spec_node_id(), lid.spec_node_id()),
                                (CommonEdgeLabels::OwnerOf, CommonEdgeLabels::BelongsTo),
                            ),
                        }
                    },
                }
            },
        },
    }
}

impl Link {
    /// Processes a link node: asks for its page, or stores the fetched page in
    /// a new web page node and marks the link as processed, or marks the link
    /// as having had an error when the fetch failed.
    pub fn process(node: &NodeItem, engine: &mut Engine, data_from_previous_request: Option<ExternalData>) -> (r: PiResult<()>)
        requires
            old(engine).wf(),
        ensures
            final(engine).wf(),
            link_processed(old(engine), final(engine), node.id, node.payload@, data_from_previous_request, r),
    {
        let url = match &node.payload {
            Payload::Link(link) => link.get_full_link(),
            _ => {
                return Err(PiError::InternalError(String::from_str("Expected Payload::Link")));
            },
        };
        match data_from_previous_request {
            Some(ExternalData::Response(response)) => {
                let mut labels: Vec<NodeLabel> = Vec::new();
                labels.push(NodeLabel::Content);
                labels.push(NodeLabel::WebPage);
                assert(labels@ =~= seq![NodeLabel::Content, NodeLabel::WebPage]);
                store_fetched_text(
                    node.id,
                    engine,
                    response.contents,
                    labels,
                    (CommonEdgeLabels::PathOf, CommonEdgeLabels::ContentOf),
                    NodeFlags::is_processed(),
                )
            },
            Some(ExternalData::Error(_)) => {
                engine.toggle_flag(&node.id, NodeFlags::had_error());
                Ok(())
            },
            None => engine.fetch(FetchRequest::new(node.id, url.as_str())),
        }
    }

    /// Adds a link by URL: the domain node of its host (found or added), the
    /// link node for its path and query under that domain (found or added),
    /// and the pair of edges between them. Returns the ID of the link node.
    pub fn add(engine: &mut Engine, url: &str, labels: Vec<NodeLabel>, domain_extra_labels: Vec<NodeLabel>, should_add_new_domain: bool) -> (r: PiResult<NodeId>)
        requires
            old(engine).wf(),
        ensures
            final(engine).wf(),
            link_add_effect(old(engine), final(engine), url@, labels@, domain_extra_labels@, should_add_new_domain, r),
    {
        let parsed = match parse_url(url) {
            Some(p) => p,
            None => {
                return Err(PiError::GraphError(concat("Cannot parse URL to get domain: ", url)));
            },
        };
        let domain = match parsed.domain {
            Some(d) => d,
            None => {
                return Err(PiError::InternalError(concat("Cannot parse URL to get domain: ", url)));
            },
        };
        let mut domain_labels_vec = clone_label_vec(&domain_extra_labels);
        if !labels_contain(&domain_extra_labels, NodeLabel::DomainName) {
            domain_labels_vec.push(NodeLabel::DomainName);
        }
        assert(domain_labels_vec@ =~= domain_labels(domain_extra_labels@));
        let ghost dpayload = PayloadView::Text(domain);
        let d = engine.get_or_add_node(Payload::Text(domain), domain_labels_vec, should_add_new_domain, None);
        let ghost e1 = *engine;
        let domain_node_id = match d {
            Ok(x) => x.get_node_id(),
            Err(e) => {
                return Err(e);
            },
        };
        let link = Link { path: parsed.path, query: parsed.query };
        let ghost lp = PayloadView::Link(link);
        let l = engine.get_or_add_node(Payload::Link(link), labels, true, Some(domain_node_id));
        let ghost e2 = *engine;
        let link_node_id = match l {
            Ok(x) => x.get_node_id(),
            Err(e) => {
                return Err(e);
            },
        };
        engine.add_connection((domain_node_id, link_node_id), (CommonEdgeLabels::OwnerOf, CommonEdgeLabels::BelongsTo));
        Ok(link_node_id)
    }
}

pub fn clone_label_vec(v: &Vec<NodeLabel>) -> (r: Vec<NodeLabel>)
    ensures
        r@ == v@,
{
    crate::engine::node::clone_labels(v)
}

} // verus!

verus! {

/// True when the node is a domain node holding its name as text.
pub open spec fn is_domain_text(n: NodeItemView) -> bool {
    n.labels.contains(NodeLabel::DomainName) && n.payload is Text
}

/// The test that an ID names a domain node, present in the graph, holding
/// its name as text.
pub open spec fn domain_text_pred(e: &Engine) -> spec_fn(NodeId) -> bool {
    |id: NodeId| e.node_map().contains_key(id) && is_domain_text(e.node_map()[id])
}

/// The domain node of a node: the first node it has a `BelongsTo` edge to
/// that is a domain node.
pub open spec fn domain_node_of(e: &Engine, node_id: NodeId) -> Option<NodeId> {
    first_where(connected_ids(e, node_id, CommonEdgeLabels::BelongsTo), domain_text_pred(e))
}

impl Link {
    /// The domain node that a link belongs to, with its contents.
    pub fn get_domain_node(node_id: &NodeId, engine: &Engine) -> (r: PiResult<Option<(NodeId, NodeItem)>>)
        requires
            engine.wf(),
        ensures
            r matches Ok(found) && match found {
                Some((id, node)) => domain_node_of(engine, *node_id) == Some(id)
                    && engine.node_map().contains_key(id) && node@ == engine.node_map()[id],
                None => domain_node_of(engine, *node_id) is None,
            },
    {
        let ids = engine.get_node_ids_connected_with_label(node_id, &CommonEdgeLabels::BelongsTo);
        let ghost p = domain_text_pred(engine);
        let mut i: usize = 0;
        while i < ids.len()
            invariant
                engine.wf(),
                ids@ == connected_ids(engine, *node_id, CommonEdgeLabels::BelongsTo),
                i <= ids@.len(),
                p == domain_text_pred(engine),
                forall|j: int| 0 <= j < i ==> !p(#[trigger] ids@[j]),
            decreases ids@.len() - i,
        {
            let id = ids[i];
            match engine.get_node_by_id(&id) {
                Some(node) => {
                    if labels_contain(&node.labels, NodeLabel::DomainName) {
                        match &node.payload {
                            Payload::Text(_) => {
                                proof {
                                    lemma_first_where_at(ids@, p, i as int);
                                }
                                return Ok(Some((id, node.clone())));
                            },
                            _ => {},
                        }
                    }
                },
                None => {},
            }
            assert(!p(ids@[i as int]));
            i = i + 1;
        }
        proof {
            lemma_first_where_none(ids@, p);
        }
        Ok(None)
    }
}

} // verus!
