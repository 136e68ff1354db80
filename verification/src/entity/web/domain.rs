use vstd::prelude::*;
use crate::engine::graph::{
    connected_ids, first_where, labelled_ids, lemma_first_where_at, lemma_first_where_none, Engine,
};
use crate::engine::labels::{CommonEdgeLabels, NodeId, NodeLabel};
use crate::engine::node::{labels_contain, NodeItem, NodeItemView, Payload, PayloadView};
use crate::error::{PiError, PiErrorKind, PiResult};
use crate::text::str_eq;

verus! {

/// A domain name whose pages the engine may crawl.
#[derive(Debug)]
pub struct Domain {
    pub name: String,
}

impl Domain {
    pub fn new(name: String) -> (r: Self)
        ensures
            r.name == name,
    {
        Self { name }
    }
}

/// How to look for a domain node: by its name, or as the domain that a node
/// belongs to.
pub enum FindDomainOf {
    DomainName(String),
    Node(NodeId),
}

/// True when the node is a domain node with the given name.
pub open spec fn is_domain_named(n: NodeItemView, name: Seq<char>) -> bool {
    n.labels.contains(NodeLabel::DomainName) && match n.payload {
        PayloadView::Text(t) => t@ == name,
        _ => false,
    }
}

/// The test that a node ID names a domain node with the given name.
pub open spec fn domain_named_pred(e: &Engine, name: Seq<char>) -> spec_fn(NodeId) -> bool {
    |id: NodeId| is_domain_named(e.node_map()[id], name)
}

/// The first domain node, in the order nodes were added, with the given name.
pub open spec fn domain_by_name(e: &Engine, name: Seq<char>) -> Option<NodeId> {
    first_where(labelled_ids(e, NodeLabel::DomainName), domain_named_pred(e, name))
}

/// The domain node that the node belongs to: the first node it has a
/// `BelongsTo` edge to, which must be a domain node with a text payload.
pub open spec fn domain_of_node(e: &Engine, node_id: NodeId) -> Result<Option<NodeId>, PiErrorKind> {
    let b = connected_ids(e, node_id, CommonEdgeLabels::BelongsTo);
    if b.len() == 0 {
        Err(PiErrorKind::InternalError)
    } else if !e.node_map().contains_key(b[0]) {
        Err(PiErrorKind::InternalError)
    } else if !e.node_map()[b[0]].labels.contains(NodeLabel::DomainName) {
        Err(PiErrorKind::GraphError)
    } else if e.node_map()[b[0]].payload is Text {
        Ok(Some(b[0]))
    } else {
        Err(PiErrorKind::GraphError)
    }
}

/// The IDs of the nodes in a search result, or the kind of its error.
pub open spec fn found_id(r: PiResult<Option<&NodeItem>>) -> Result<Option<NodeId>, PiErrorKind> {
    match r {
        Ok(Some(n)) => Ok(Some(n.id)),
        Ok(None) => Ok(None),
        Err(e) => Err(e.kind()),
    }
}

/// True when a found node is the node of the graph with its ID.
pub open spec fn found_in(e: &Engine, r: PiResult<Option<&NodeItem>>) -> bool {
    r matches Ok(Some(n)) ==> e.node_map().contains_key(n.id) && n@ == e.node_map()[n.id]
}

impl Domain {
    /// Finds a domain node by name, or the domain node that a node belongs to.
    pub fn find_existing<'a>(engine: &'a Engine, find_type: FindDomainOf) -> (r: PiResult<Option<&'a NodeItem>>)
        requires
            engine.wf(),
        ensures
            found_in(engine, r),
            found_id(r) == match find_type {
                FindDomainOf::DomainName(name) => Ok(domain_by_name(engine, name@)),
                FindDomainOf::Node(id) => domain_of_node(engine, id),
            },
    {
        proof {
            engine.lemma_wf();
        }
        match &find_type {
            FindDomainOf::DomainName(domain_name) => {
                let ids = engine.get_node_ids_with_label(&NodeLabel::DomainName);
                let ghost p = domain_named_pred(engine, domain_name@);
                proof {
                    crate::engine::graph::lemma_ids_with_label(engine.node_order(), engine.node_map(), NodeLabel::DomainName);
                }
                let mut i: usize = 0;
                while i < ids.len()
                    invariant
                        engine.wf(),
                        ids@ == labelled_ids(engine, NodeLabel::DomainName),
                        i <= ids@.len(),
                        p == domain_named_pred(engine, domain_name@),
                        find_type == FindDomainOf::DomainName(*domain_name),
                        forall|j: int| 0 <= j < i ==> !p(#[trigger] ids@[j]),
                    decreases ids@.len() - i,
                {
                    proof {
                        engine.lemma_wf();
                        crate::engine::graph::lemma_ids_with_label(engine.node_order(), engine.node_map(), NodeLabel::DomainName);
                    }
                    let id = ids[i];
                    assert(ids@.contains(id));
                    assert(engine.node_order().contains(id));
                    assert(engine.node_map().contains_key(id));
                    assert(engine.node_map()[id].id == id);
                    match engine.get_node_by_id(&id) {
                        Some(node) => {
                            if labels_contain(&node.labels, NodeLabel::DomainName) {
                                match &node.payload {
                                    Payload::Text(domain) => {
                                        if str_eq(domain.as_str(), domain_name.as_str()) {
                                            proof {
                                                lemma_first_where_at(ids@, p, i as int);
                                                


                                            }
                                            return Ok(Some(node));
                                        }
                                    },
                                    _ => {},
                                }
                            }
                        },
                        None => {},
                    }
                    assert(!p(ids@[i as int]));
                    i = i + 1;
                }
                proof {
                    lemma_first_where_none(ids@, p);
                }
                Ok(None)
            },
            FindDomainOf::Node(node_id) => {
                let node_id = *node_id;
                let belongs_to = engine.get_node_ids_connected_with_label(
                    &node_id,
                    &CommonEdgeLabels::BelongsTo,
                );
                if belongs_to.len() == 0 {
                    let mut m = String::from_str("Could not find Domain node for given node with ID ");
                    m.append(node_id.to_string().as_str());
                    return Err(PiError::InternalError(m));
                }
                let first = belongs_to[0];
                match engine.get_node_by_id(&first) {
                    Some(node) => {
                        if labels_contain(&node.labels, NodeLabel::DomainName) {
                            match &node.payload {
                                Payload::Text(_) => Ok(Some(node)),
                                _ => Err(PiError::GraphError(String::from_str("Cannot find domain node for URL"))),
                            }
                        } else {
                            Err(PiError::GraphError(String::from_str("Cannot find domain node for URL")))
                        }
                    },
                    None => {
                        let mut m = String::from_str("Node with id ");
                        m.append(first.to_string().as_str());
                        m.append(" not found");
                        Err(PiError::InternalError(m))
                    },
                }
            },
        }
    }

    /// The name held by a domain node.
    pub fn get_domain_name(node: &NodeItem) -> (r: PiResult<String>)
        ensures
            match r {
                Ok(name) => node@.labels.contains(NodeLabel::DomainName)
                    && node@.payload == PayloadView::Text(name),
                Err(e) => e.kind() == PiErrorKind::GraphError && !(node@.labels.contains(
                    NodeLabel::DomainName,
                ) && node@.payload is Text),
            },
    {
        if !labels_contain(&node.labels, NodeLabel::DomainName) {
            return Err(PiError::GraphError(String::from_str("Expected Domain type payload")));
        }
        match &node.payload {
            Payload::Text(data) => Ok(data.clone()),
            _ => Err(PiError::GraphError(String::from_str("Expected Domain type payload"))),
        }
    }
}

} // verus!

verus! {

use crate::engine::flags::{NodeFlags, IS_PROCESSED_BIT};
use crate::engine::fetching::{fetch_effect, fetch_outcome};
use crate::engine::graph::{edges_after_connection, order_with, toggled_in};
use crate::engine::ops::following_id;
use crate::fetch::{get_request, ExternalData, FetchRequest};

/// The graph after a piece of fetched text is stored in a new node with the
/// given labels, connected from `owner` with the given pair of edge labels,
/// and `owner` is marked with `flag`; nothing changes, and an internal error
/// is returned, when the next node ID is taken.
pub open spec fn stored_fetched_text(old: &Engine, new: &Engine, owner: NodeId, text: Seq<char>, labels: Seq<NodeLabel>, edge_labels: (CommonEdgeLabels, CommonEdgeLabels), flag: NodeFlags, r: PiResult<()>) -> bool {
    if old.node_map().contains_key(old.next_node_id()) {
        r matches Err(e) && e.kind() == PiErrorKind::InternalError && crate::engine::ops::unchanged(new, old)
    } else {
        r is Ok && stored_text_effect(old, new, owner, text, labels, edge_labels, flag)
    }
}

/// The graph after the text is stored in a new node with the next ID.
pub open spec fn stored_text_effect(old: &Engine, new: &Engine, owner: NodeId, text: Seq<char>, labels: Seq<NodeLabel>, edge_labels: (CommonEdgeLabels, CommonEdgeLabels), flag: NodeFlags) -> bool {
    let id = old.next_node_id();
    let m1 = old.node_map().insert(
        id,
        NodeItemView {
            id,
            labels,
            payload: PayloadView::Text(new.node_map()[id].payload->Text_0),
            flags: NodeFlags { bits: 0 },
            written_at: new.node_map()[id].written_at,
        },
    );
    &&& id != owner ==> new.node_map()[id].payload->Text_0@ == text
    &&& new.node_map() == toggled_in(m1, owner, flag, new.node_map()[owner].written_at)
    &&& new.node_order() == order_with(old.node_order(), id)
    &&& new.edge_map() == edges_after_connection(old.edge_map(), (owner, id), edge_labels, new.edge_map()[id].written_at)
    &&& new.edge_order() == order_with(order_with(old.edge_order(), owner), id)
    &&& new.next_node_id() == following_id(id)
    &&& new.open_fetch_requests() == old.open_fetch_requests()
    &&& new.project_id() == old.project_id()
    &&& new.outbox() == old.outbox()
}

/// The effect of processing a domain node, and its result.
pub open spec fn domain_processed(old: &Engine, new: &Engine, node_id: NodeId, data: Option<ExternalData>, r: PiResult<()>) -> bool {
            match data {
                None => fetch_effect(
                    old,
                    new,
                    get_request(node_id, "/robots.txt"@),
                    fetch_outcome(old, get_request(node_id, "/robots.txt"@)),
                    r,
                ),
                Some(ExternalData::Response(response)) => stored_fetched_text(
                    old,
                    new,
                    node_id,
                    response.contents@,
                    seq![NodeLabel::RobotsTxt],
                    (CommonEdgeLabels::OwnerOf, CommonEdgeLabels::BelongsTo),
                    NodeFlags { bits: IS_PROCESSED_BIT },
                    r,
                ),
                Some(ExternalData::Error(_)) => stored_fetched_text(
                    old,
                    new,
                    node_id,
                    Seq::empty(),
                    seq![NodeLabel::RobotsTxt],
                    (CommonEdgeLabels::OwnerOf, CommonEdgeLabels::BelongsTo),
                    NodeFlags { bits: IS_PROCESSED_BIT },
                    r,
                ),
            }
}

impl Domain {
    /// Processes a domain node: asks for its `robots.txt`, or stores the
    /// fetched `robots.txt` (empty when the fetch failed) in a new node that
    /// the domain owns, and marks the domain as processed.
    pub fn process(node: &NodeItem, engine: &mut Engine, data_from_previous_request: Option<ExternalData>) -> (r: PiResult<()>)
        requires
            old(engine).wf(),
        ensures
            final(engine).wf(),
            domain_processed(old(engine), final(engine), node.id, data_from_previous_request, r),
    {
        match data_from_previous_request {
            Some(ExternalData::Response(response)) => {
                Self::store_robots_txt(node.id, engine, response.contents)
            },
            Some(ExternalData::Error(_)) => {
                Self::store_robots_txt(node.id, engine, String::new())
            },
            None => {
                let path = "/robots.txt";
                proof {
                    reveal_strlit("/robots.txt");
                }
                engine.fetch(FetchRequest::new(node.id, path))
            },
        }
    }

    /// Stores a `robots.txt` in a new node owned by the domain node and marks
    /// the domain as processed.
    fn store_robots_txt(owner: NodeId, engine: &mut Engine, contents: String) -> (r: PiResult<()>)
        requires
            old(engine).wf(),
        ensures
            final(engine).wf(),
            stored_fetched_text(
                old(engine),
                final(engine),
                owner,
                contents@,
                seq![NodeLabel::RobotsTxt],
                (CommonEdgeLabels::OwnerOf, CommonEdgeLabels::BelongsTo),
                NodeFlags { bits: IS_PROCESSED_BIT },
                r,
            ),
    {
        let mut labels: Vec<NodeLabel> = Vec::new();
        labels.push(NodeLabel::RobotsTxt);
        assert(labels@ =~= seq![NodeLabel::RobotsTxt]);
        store_fetched_text(
            owner,
            engine,
            contents,
            labels,
            (CommonEdgeLabels::OwnerOf, CommonEdgeLabels::BelongsTo),
            NodeFlags::is_processed(),
        )
    }
}

/// Stores fetched text in a new node with the given labels, connects it from
/// `owner` with the pair of edge labels, and toggles `flag` on `owner`.
pub fn store_fetched_text(owner: NodeId, engine: &mut Engine, contents: String, labels: Vec<NodeLabel>, edge_labels: (CommonEdgeLabels, CommonEdgeLabels), flag: NodeFlags) -> (r: PiResult<()>)
    requires
        old(engine).wf(),
        !labels@.contains(NodeLabel::DomainName),
        !labels@.contains(NodeLabel::Link),
        !labels@.contains(NodeLabel::SearchTerm),
    ensures
        final(engine).wf(),
        stored_fetched_text(old(engine), final(engine), owner, contents@, labels@, edge_labels, flag, r),
{
    let ghost e0 = *engine;
    let ghost text = contents@;
    let r = engine.get_or_add_node(Payload::Text(contents), labels, true, None);
    let id = match r {
        Ok(x) => x.get_node_id(),
        Err(e) => {
            return Err(e);
        },
    };
    let ghost e1 = *engine;
    engine.add_connection((owner, id), edge_labels);
    let ghost e2 = *engine;
    engine.toggle_flag(&owner, flag);
    proof {
        assert(e1.node_map()[id].payload->Text_0@ == text);
        if id != owner {
            assert(engine.node_map()[id] == e1.node_map()[id]);
        }
        assert(engine.node_map() =~= toggled_in(
            e0.node_map().insert(
                id,
                NodeItemView {
                    id,
                    labels: labels@,
                    payload: PayloadView::Text(engine.node_map()[id].payload->Text_0),
                    flags: NodeFlags { bits: 0 },
                    written_at: engine.node_map()[id].written_at,
                },
            ),
            owner,
            flag,
            engine.node_map()[owner].written_at,
        ));
    }
    Ok(())
}

} // verus!
