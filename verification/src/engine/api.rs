use vstd::prelude::*;
use crate::engine::flags::{api_flags_of, APINodeFlags};
use crate::engine::graph::{lemma_ids_with_label, Engine};
use crate::engine::processing::{insert_sorted, strictly_sorted};
use crate::engine::labels::{edge_label_name, node_label_name, EdgeLabel, NodeId, NodeLabel};
use crate::engine::node::{labels_contain, NodeEdges, NodeEdgesView, NodeItem, NodeItemView, PayloadView, Payload};
use crate::entity::classifier::{Classification, ClassifierSettings};
use crate::entity::conclusion::Conclusion;
use crate::entity::crawler::CrawlerSettings;
use crate::entity::named_entity::{EntityName, ExtractedEntity};
use crate::entity::project_settings::ProjectSettings;
use crate::entity::web::link::Link;
use crate::entity::web::metadata::WebMetadata;

verus! {

/// A request from the API to the engine of a project.
pub struct EngineRequest {
    pub request_id: u32,
    pub project_id: String,
    pub payload: EngineRequestPayload,
}

/// A link to add to a project.
pub struct LinkWrite {
    /// The URL of the link
    pub url: String,
}

/// Project settings as written by the user.
#[derive(Clone, Copy, Debug, PartialEq, Eq, Structural)]
pub struct ProjectSettingsWrite {
    pub extract_data_only_from_specified_links: bool,
    pub crawl_within_domains_of_specified_links: bool,
    pub crawl_direct_links_from_specified_links: bool,
}

/// A node to create.
pub enum NodeWrite {
    Link(LinkWrite),
    SearchTerm(String),
    Objective(String),
    ProjectSettings(ProjectSettingsWrite),
}

/// A pair of edges to create between two nodes.
#[derive(Clone, Copy, Debug)]
pub struct EdgeWrite {
    pub node_ids: (NodeId, NodeId),
    pub edge_labels: (EdgeLabel, EdgeLabel),
}

/// What an API request asks of the engine.
pub enum EngineRequestPayload {
    /// Explore the graph, from the given node or from the first objective.
    Explore(Option<u32>),
    GetLabels,
    GetEntities,
    GetClassifications,
    GetNodesWithLabel(String),
    GetNodesWithIds(Vec<u32>),
    GetAllNodes(i64),
    GetAllEdges(i64),
    CreateNode(NodeWrite),
    CreateEdge(EdgeWrite),
    /// Some nodes allow a query, which can return any number of nodes.
    Query(u32),
}

/// The outgoing edges of a node: the node at the other end and the name of
/// the edge label, with the time of the last write of the list.
pub struct APINodeEdges {
    pub edges: Vec<(NodeId, String)>,
    pub written_at: i64,
}

/// The edge lists of several nodes, each node once.
pub struct APIEdges(pub Vec<(NodeId, APINodeEdges)>);

/// The part of the graph that the explore request shows.
pub struct Explore {
    pub nodes: Vec<APINodeItem>,
    pub edges: APIEdges,
    /// Nodes that are grouped together because they are siblings.
    pub sibling_nodes: Vec<Vec<NodeId>>,
}

/// All texts extracted for one kind of named entity.
pub struct EntityGroup {
    pub entity_name: String,
    pub extracted_text: Vec<String>,
}

/// A web page with its classification.
pub struct ClassifiedItem {
    pub url: String,
    pub is_relevant: bool,
    pub reason: String,
    pub insight: Option<String>,
}

/// The engine's answer to an API request.
pub enum EngineResponsePayload {
    NodeCreatedSuccessfully(NodeId),
    EdgeCreatedSuccessfully,
    Nodes(Vec<APINodeItem>),
    Edges(APIEdges),
    Labels(Vec<String>),
    Entities(Vec<EntityGroup>),
    Classifications(Vec<ClassifiedItem>),
    Explore(Explore),
    Error(String),
}

/// The payload of a node as API clients see it.
pub enum APIPayload {
    Link(Link),
    WebMetadata(WebMetadata),
    Text(String),
    Tree(String),
    ProjectSettings(ProjectSettings),
    CrawlerSettings(CrawlerSettings),
    ClassifierSettings(ClassifierSettings),
    Classification(Classification),
    NamedEntitiesToExtract(Vec<EntityName>),
    ExtractedNamedEntities(Vec<ExtractedEntity>),
    Conclusion(Conclusion),
}

/// A node as API clients see it.
pub struct APINodeItem {
    pub id: NodeId,
    /// The labels of the node, indexed by relevance.
    pub labels: Vec<NodeLabel>,
    pub payload: APIPayload,
    pub flags: Vec<APINodeFlags>,
    /// Milliseconds since the UNIX epoch at the last write of the node.
    pub written_at: i64,
}

/// The answer to one request.
pub struct EngineResponse {
    pub request_id: u32,
    pub payload: EngineResponsePayload,
}

/// True when the text of the node is kept from API clients: the text of web
/// pages and of robots.txt files.
pub open spec fn hides_text(labels: Seq<NodeLabel>) -> bool {
    labels.contains(NodeLabel::WebPage) || labels.contains(NodeLabel::RobotsTxt)
}

/// True when `a` is the API form of the payload of node `n`.
pub open spec fn api_payload_of(a: APIPayload, n: NodeItemView) -> bool {
    match (a, n.payload) {
        (APIPayload::Text(s), PayloadView::Text(t)) => if hides_text(n.labels) {
            s@ == Seq::<char>::empty()
        } else {
            s@ == t@
        },
        (APIPayload::Link(x), PayloadView::Link(y)) => x == y,
        (APIPayload::WebMetadata(x), PayloadView::WebMetadata(y)) => x@ == y,
        (APIPayload::Tree(s), PayloadView::Tree) => s@ == Seq::<char>::empty(),
        (APIPayload::ProjectSettings(x), PayloadView::ProjectSettings(y)) => x == y,
        (APIPayload::CrawlerSettings(x), PayloadView::CrawlerSettings(y)) => x@ == y,
        (APIPayload::ClassifierSettings(x), PayloadView::ClassifierSettings(y)) => x == y,
        (APIPayload::Classification(x), PayloadView::Classification(y)) => x == y,
        (APIPayload::NamedEntitiesToExtract(x), PayloadView::NamedEntitiesToExtract(y)) => x@ == y,
        (APIPayload::ExtractedNamedEntities(x), PayloadView::ExtractedNamedEntities(y)) => x@ == y,
        (APIPayload::Conclusion(x), PayloadView::Conclusion(y)) => x == y,
        _ => false,
    }
}

/// True when `a` is the API form of node `n`.
pub open spec fn api_node_of(a: APINodeItem, n: NodeItemView) -> bool {
    &&& a.id == n.id
    &&& a.labels@ == n.labels
    &&& api_payload_of(a.payload, n)
    &&& a.flags@ == api_flags_of(n.flags)
    &&& a.written_at == n.written_at
}

/// True when `a` lists the API forms of the nodes with the IDs `ids`, in the
/// same order.
pub open spec fn api_nodes_of(a: Seq<APINodeItem>, e: &Engine, ids: Seq<NodeId>) -> bool {
    &&& a.len() == ids.len()
    &&& forall|i: int| 0 <= i < ids.len() ==> api_node_of(#[trigger] a[i], e.node_map()[ids[i]])
}

/// True when `a` is the API form of the edge list `v`.
pub open spec fn api_edges_of(a: APINodeEdges, v: NodeEdgesView) -> bool {
    &&& a.written_at == v.written_at
    &&& a.edges@.len() == v.edges.len()
    &&& forall|i: int| 0 <= i < v.edges.len() ==> {
        &&& (#[trigger] a.edges@[i]).0 == v.edges[i].0
        &&& a.edges@[i].1@ == edge_label_name(v.edges[i].1)
    }
}

impl APINodeItem {
    /// The API form of a node. The text of web pages and robots.txt files is
    /// left out.
    pub fn from_node(node: &NodeItem) -> (r: APINodeItem)
        ensures
            api_node_of(r, node@),
    {
        let payload = match &node.payload {
            Payload::Text(text) => {
                if labels_contain(&node.labels, NodeLabel::WebPage) || labels_contain(
                    &node.labels,
                    NodeLabel::RobotsTxt,
                ) {
                    APIPayload::Text(String::new())
                } else {
                    APIPayload::Text(text.clone())
                }
            },
            Payload::Link(link) => APIPayload::Link(link.clone()),
            Payload::WebMetadata(m) => APIPayload::WebMetadata(m.clone()),
            Payload::Tree => APIPayload::Tree(String::new()),
            Payload::ProjectSettings(p) => APIPayload::ProjectSettings(*p),
            Payload::CrawlerSettings(c) => APIPayload::CrawlerSettings(c.clone()),
            Payload::ClassifierSettings(c) => APIPayload::ClassifierSettings(c.clone()),
            Payload::Classification(c) => APIPayload::Classification(c.clone()),
            Payload::NamedEntitiesToExtract(v) => {
                let c = v.clone();
                assert(c@ =~= v@);
                APIPayload::NamedEntitiesToExtract(c)
            },
            Payload::ExtractedNamedEntities(v) => {
                let c = v.clone();
                assert(c@ =~= v@);
                APIPayload::ExtractedNamedEntities(c)
            },
            Payload::Conclusion(c) => APIPayload::Conclusion(c.clone()),
        };
        APINodeItem {
            id: node.id,
            labels: crate::engine::node::clone_labels(&node.labels),
            payload,
            flags: APINodeFlags::from_node_flags(&node.flags),
            written_at: node.written_at,
        }
    }
}

/// The API form of an edge list.
pub fn api_node_edges(edges: &NodeEdges) -> (r: APINodeEdges)
    ensures
        api_edges_of(r, edges@),
{
    let mut v: Vec<(NodeId, String)> = Vec::new();
    let mut i: usize = 0;
    while i < edges.edges.len()
        invariant
            i <= edges.edges@.len(),
            v@.len() == i,
            forall|j: int| 0 <= j < i ==> {
                &&& (#[trigger] v@[j]).0 == edges.edges@[j].0
                &&& v@[j].1@ == edge_label_name(edges.edges@[j].1)
            },
        decreases edges.edges@.len() - i,
    {
        let (id, label) = edges.edges[i];
        v.push((id, String::from_str(label.name())));
        i = i + 1;
    }
    APINodeEdges { edges: v, written_at: edges.written_at }
}

/// The names of the labels, in the same order.
pub fn label_names(labels: &Vec<NodeLabel>) -> (r: Vec<String>)
    ensures
        r@.len() == labels@.len(),
        forall|i: int| 0 <= i < labels@.len() ==> (#[trigger] r@[i])@ == node_label_name(labels@[i]),
{
    let mut v: Vec<String> = Vec::new();
    let mut i: usize = 0;
    while i < labels.len()
        invariant
            i <= labels@.len(),
            v@.len() == i,
            forall|j: int| 0 <= j < i ==> (#[trigger] v@[j])@ == node_label_name(labels@[j]),
        decreases labels@.len() - i,
    {
        v.push(String::from_str(labels[i].name()));
        i = i + 1;
    }
    v
}

/// True when the sequence never decreases.
pub open spec fn ascending(s: Seq<NodeId>) -> bool {
    forall|i: int, j: int| 0 <= i < j < s.len() ==> s[i] <= s[j]
}

/// True when `s` lists, by ascending ID and each once, exactly the IDs that
/// satisfy `p`.
pub open spec fn sorted_listing(s: Seq<NodeId>, p: spec_fn(NodeId) -> bool) -> bool {
    &&& strictly_sorted(s)
    &&& forall|x: NodeId| #[trigger] s.contains(x) <==> p(x)
}

/// True when `v` lists the API forms of the nodes that satisfy `p`, by
/// ascending ID.
pub open spec fn lists_nodes(v: Seq<APINodeItem>, e: &Engine, p: spec_fn(NodeId) -> bool) -> bool {
    exists|s: Seq<NodeId>| sorted_listing(s, p) && api_nodes_of(v, e, s)
}

/// The test that an ID names a node of the engine.
pub open spec fn present(e: &Engine) -> spec_fn(NodeId) -> bool {
    |x: NodeId| e.node_map().contains_key(x)
}

/// The test that an ID names a node of the engine with the label.
pub open spec fn labelled(e: &Engine, label: NodeLabel) -> spec_fn(NodeId) -> bool {
    |x: NodeId| e.node_map().contains_key(x) && e.node_map()[x].labels.contains(label)
}

/// The test that an ID names a node of the engine written after `since`.
pub open spec fn written_after(e: &Engine, since: i64) -> spec_fn(NodeId) -> bool {
    |x: NodeId| e.node_map().contains_key(x) && e.node_map()[x].written_at > since
}

/// Filtering a sequence with one more element at its end.
pub proof fn lemma_filter_push<A>(s: Seq<A>, x: A, p: spec_fn(A) -> bool)
    ensures
        s.push(x).filter(p) == if p(x) {
            s.filter(p).push(x)
        } else {
            s.filter(p)
        },
{
    reveal(Seq::filter);
    assert(s.push(x).drop_last() =~= s);
}

/// The same IDs, each as often, in ascending order.
pub fn sort_ids(v: &Vec<NodeId>) -> (r: Vec<NodeId>)
    ensures
        ascending(r@),
        r@.to_multiset() == v@.to_multiset(),
{
    broadcast use vstd::seq_lib::group_to_multiset_ensures;
    let mut r: Vec<NodeId> = Vec::new();
    let mut k: usize = 0;
    while k < v.len()
        invariant
            k <= v@.len(),
            ascending(r@),
            r@.to_multiset() == v@.subrange(0, k as int).to_multiset(),
        decreases v@.len() - k,
    {
        let x = v[k];
        let mut i: usize = 0;
        while i < r.len() && r[i] <= x
            invariant
                i <= r@.len(),
                forall|j: int| 0 <= j < i ==> r@[j] <= x,
            decreases r@.len() - i,
        {
            i = i + 1;
        }
        let ghost o = r@;
        r.insert(i, x);
        proof {
            vstd::seq_lib::to_multiset_insert(o, i as int, x);
            assert(r@ == o.insert(i as int, x));
            assert(v@.subrange(0, k as int + 1) =~= v@.subrange(0, k as int).push(x));
            vstd::seq_lib::to_multiset_build(v@.subrange(0, k as int), x);
            assert forall|a: int, b: int| 0 <= a < b < r@.len() implies r@[a] <= r@[b] by {
                if a < i && b > i {
                    assert(r@[a] == o[a]);
                    assert(r@[b] == o[b - 1]);
                } else if b == i {
                    assert(r@[a] == o[a]);
                } else if a == i {
                    assert(r@[b] == o[b - 1]);
                    assert(o[i as int] > x);
                    assert(ascending(o));
                } else if a > i {
                    assert(r@[a] == o[a - 1]);
                    assert(r@[b] == o[b - 1]);
                } else {
                    assert(r@[a] == o[a]);
                    assert(r@[b] == o[b]);
                }
            }
        }
        k = k + 1;
    }
    assert(v@.subrange(0, v@.len() as int) =~= v@);
    r
}

/// The API forms of the nodes with the given IDs, in the same order, leaving
/// out IDs that name no node.
pub fn nodes_for_ids(engine: &Engine, ids: &Vec<NodeId>) -> (r: Vec<APINodeItem>)
    requires
        engine.wf(),
    ensures
        api_nodes_of(r@, engine, ids@.filter(present(engine))),
{
    let ghost p = present(engine);
    let mut r: Vec<APINodeItem> = Vec::new();
    let mut i: usize = 0;
    while i < ids.len()
        invariant
            engine.wf(),
            i <= ids@.len(),
            p == present(engine),
            api_nodes_of(r@, engine, ids@.subrange(0, i as int).filter(p)),
        decreases ids@.len() - i,
    {
        let id = ids[i];
        let ghost r0 = r@;
        let ghost f0 = ids@.subrange(0, i as int).filter(p);
        let ghost f = ids@.subrange(0, i as int + 1).filter(p);
        proof {
            assert(ids@.subrange(0, i as int + 1) =~= ids@.subrange(0, i as int).push(id));
            lemma_filter_push(ids@.subrange(0, i as int), id, p);
        }
        match engine.get_node_by_id(&id) {
            Some(node) => {
                let a = APINodeItem::from_node(node);
                r.push(a);
                proof {
                    assert(f == f0.push(id));
                    assert forall|j: int| 0 <= j < f.len() implies api_node_of(#[trigger] r@[j], engine.node_map()[f[j]]) by {
                        if j < f0.len() {
                            assert(f[j] == f0[j]);
                            assert(r@[j] == r0[j]);
                        }
                    }
                }
            },
            None => {
                proof {
                    assert(f == f0);
                }
            },
        }
        i = i + 1;
    }
    assert(ids@.subrange(0, ids@.len() as int) =~= ids@);
    r
}

/// The IDs of the nodes that hold the label, by ascending ID.
pub fn sorted_ids_with_label(engine: &Engine, label: NodeLabel) -> (r: Vec<NodeId>)
    requires
        engine.wf(),
    ensures
        sorted_listing(r@, labelled(engine, label)),
{
    proof {
        engine.lemma_wf();
        lemma_ids_with_label(engine.node_order(), engine.node_map(), label);
    }
    let ids = engine.get_node_ids_with_label(&label);
    let mut r: Vec<NodeId> = Vec::new();
    let mut i: usize = 0;
    while i < ids.len()
        invariant
            i <= ids@.len(),
            ids@.no_duplicates(),
            strictly_sorted(r@),
            forall|x: NodeId| #[trigger] r@.contains(x) <==> exists|j: int| 0 <= j < i && ids@[j] == x,
        decreases ids@.len() - i,
    {
        let x = ids[i];
        proof {
            if r@.contains(x) {
                let j = choose|j: int| 0 <= j < i && ids@[j] == x;
            }
        }
        insert_sorted(&mut r, x);
        i = i + 1;
    }
    proof {
        assert forall|x: NodeId| #[trigger] r@.contains(x) <==> labelled(engine, label)(x) by {
            if r@.contains(x) {
                let j = choose|j: int| 0 <= j < ids@.len() && ids@[j] == x;
                assert(ids@.contains(x));
            }
            if labelled(engine, label)(x) {
                assert(engine.node_order().contains(x));
                assert(ids@.contains(x));
                let j = choose|j: int| 0 <= j < ids@.len() && ids@[j] == x;
            }
        }
    }
    r
}

/// The IDs of the nodes written after `since`, by ascending ID.
pub fn sorted_ids_written_after(engine: &Engine, since: i64) -> (r: Vec<NodeId>)
    requires
        engine.wf(),
    ensures
        sorted_listing(r@, written_after(engine, since)),
{
    proof {
        engine.lemma_wf();
    }
    let n = engine.node_count();
    let mut r: Vec<NodeId> = Vec::new();
    let mut i: usize = 0;
    while i < n
        invariant
            engine.wf(),
            n == engine.node_order().len(),
            i <= n,
            engine.node_order().no_duplicates(),
            forall|k: NodeId| engine.node_map().contains_key(k) <==> #[trigger] engine.node_order().contains(k),
            strictly_sorted(r@),
            forall|x: NodeId| #[trigger] r@.contains(x) <==> exists|j: int| 0 <= j < i
                && engine.node_order()[j] == x && engine.node_map()[x].written_at > since,
        decreases n - i,
    {
        let id = engine.node_id_at(i);
        assert(engine.node_order().contains(id));
        let node = engine.get_node_by_id(&id).unwrap();
        if node.written_at > since {
            proof {
                if r@.contains(id) {
                    let j = choose|j: int| 0 <= j < i && engine.node_order()[j] == id
                        && engine.node_map()[id].written_at > since;
                    assert(engine.node_order()[i as int] == id);
                }
            }
            insert_sorted(&mut r, id);
        }
        i = i + 1;
    }
    proof {
        assert forall|x: NodeId| #[trigger] r@.contains(x) <==> written_after(engine, since)(x) by {
            if r@.contains(x) {
                let j = choose|j: int| 0 <= j < n && engine.node_order()[j] == x
                    && engine.node_map()[x].written_at > since;
                assert(engine.node_order().contains(x));
            }
            if written_after(engine, since)(x) {
                assert(engine.node_order().contains(x));
                let j = choose|j: int| 0 <= j < engine.node_order().len() && engine.node_order()[j] == x;
            }
        }
    }
    r
}

} // verus!
