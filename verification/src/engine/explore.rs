use vstd::prelude::*;
use crate::engine::api::{api_node_edges, api_node_of, APIEdges, APINodeEdges, APINodeItem, Explore};
use crate::engine::graph::{ids_contain, Engine};
use crate::engine::labels::{EdgeLabel, NodeId, NodeLabel};
use crate::engine::node::labels_contain;
use crate::engine::reports::api_edge_lists_of;

verus! {

broadcast use vstd::seq_lib::group_to_multiset_ensures;

/// How many levels of nodes the explore request walks through from its
/// starting node.
pub const EXPLORE_DEPTH: u32 = 6;

/// True when the labels mark a node that the explore request shows.
pub open spec fn of_interest(labels: Seq<NodeLabel>) -> bool {
    ||| labels.contains(NodeLabel::Objective)
    ||| labels.contains(NodeLabel::ProjectSettings)
    ||| labels.contains(NodeLabel::CrawlerSettings)
    ||| labels.contains(NodeLabel::ClassifierSettings)
    ||| labels.contains(NodeLabel::Link)
    ||| labels.contains(NodeLabel::DomainName)
    ||| labels.contains(NodeLabel::WebSearch)
}

/// True when both nodes exist and hold the same labels, each as often.
pub open spec fn same_labels(e: &Engine, a: NodeId, b: NodeId) -> bool {
    &&& e.node_map().contains_key(a)
    &&& e.node_map().contains_key(b)
    &&& e.node_map()[a].labels.to_multiset() == e.node_map()[b].labels.to_multiset()
}

/// True when group `k` is one whose first node has the labels of `t`.
pub open spec fn group_match(e: &Engine, g: Seq<Seq<NodeId>>, t: NodeId, k: int) -> bool {
    0 <= k < g.len() && g[k].len() > 0 && same_labels(e, g[k][0], t)
}

/// The first such group.
pub open spec fn first_group_match(e: &Engine, g: Seq<Seq<NodeId>>, t: NodeId, k: int) -> bool {
    group_match(e, g, t, k) && forall|j: int| 0 <= j < k ==> !group_match(e, g, t, j)
}

/// The groups after node `t` joins the first group of nodes with its labels,
/// or a new group of its own when there is none.
pub open spec fn add_to_groups(e: &Engine, g: Seq<Seq<NodeId>>, t: NodeId) -> Seq<Seq<NodeId>> {
    if exists|k: int| first_group_match(e, g, t, k) {
        let k = choose|k: int| first_group_match(e, g, t, k);
        g.update(k, g[k].push(t))
    } else {
        g.push(seq![t])
    }
}

/// What the explore walk has gathered: the nodes it shows, in the order
/// found; the nodes found on the level being walked; the nodes whose edge
/// lists it shows; and the groups of sibling nodes.
pub struct ExploreState {
    pub visited: Seq<NodeId>,
    pub next: Seq<NodeId>,
    pub recorded: Seq<NodeId>,
    pub siblings: Seq<Seq<NodeId>>,
}

/// The walk through the edges of one node: each target not yet shown that
/// exists and is of interest is shown, queued for the next level and grouped
/// with the targets that hold the same labels.
pub open spec fn visit_edges(e: &Engine, st: ExploreState, g: Seq<Seq<NodeId>>, s: Seq<(NodeId, EdgeLabel)>) -> (ExploreState, Seq<Seq<NodeId>>)
    decreases s.len(),
{
    if s.len() == 0 {
        (st, g)
    } else {
        let (a, h) = visit_edges(e, st, g, s.drop_last());
        let t = s.last().0;
        if a.visited.contains(t) || !e.node_map().contains_key(t) || !of_interest(e.node_map()[t].labels) {
            (a, h)
        } else {
            (
                ExploreState { visited: a.visited.push(t), next: a.next.push(t), recorded: a.recorded, siblings: a.siblings },
                add_to_groups(e, h, t),
            )
        }
    }
}

/// The test that a group holds more than one node.
pub open spec fn has_siblings() -> spec_fn(Seq<NodeId>) -> bool {
    |s: Seq<NodeId>| s.len() > 1
}

/// The walk from one node: through its edges, keeping the groups of more
/// than one sibling, and showing its edge list. A node without an edge list
/// adds nothing.
pub open spec fn explore_node(e: &Engine, st: ExploreState, n: NodeId) -> ExploreState {
    if e.edge_map().contains_key(n) {
        let (a, g) = visit_edges(e, st, Seq::empty(), e.edge_map()[n].edges);
        ExploreState {
            visited: a.visited,
            next: a.next,
            recorded: a.recorded.push(n),
            siblings: a.siblings + g.filter(has_siblings()),
        }
    } else {
        st
    }
}

/// The walk from each node of a level in turn.
pub open spec fn explore_level(e: &Engine, st: ExploreState, level: Seq<NodeId>) -> ExploreState
    decreases level.len(),
{
    if level.len() == 0 {
        st
    } else {
        explore_node(e, explore_level(e, st, level.drop_last()), level.last())
    }
}

/// The walk through `d` levels, starting from `level`.
pub open spec fn explore_depths(e: &Engine, st: ExploreState, level: Seq<NodeId>, d: nat) -> ExploreState
    decreases d,
{
    if d == 0 {
        st
    } else {
        let a = explore_level(
            e,
            ExploreState { visited: st.visited, next: Seq::empty(), recorded: st.recorded, siblings: st.siblings },
            level,
        );
        explore_depths(e, a, a.next, (d - 1) as nat)
    }
}

/// The whole walk from a starting node.
pub open spec fn explored(e: &Engine, start: NodeId) -> ExploreState {
    explore_depths(
        e,
        ExploreState { visited: seq![start], next: Seq::empty(), recorded: Seq::empty(), siblings: Seq::empty() },
        seq![start],
        EXPLORE_DEPTH as nat,
    )
}

/// The views of a list of ID vectors.
pub open spec fn id_lists(v: Seq<Vec<NodeId>>) -> Seq<Seq<NodeId>> {
    v.map_values(|x: Vec<NodeId>| x@)
}

/// True when `x` is the answer to an explore request from `start`.
pub open spec fn explore_of(x: Explore, e: &Engine, start: NodeId) -> bool {
    let st = explored(e, start);
    &&& x.nodes@.len() == st.visited.len()
    &&& forall|i: int| 0 <= i < st.visited.len() ==> api_node_of(#[trigger] x.nodes@[i], e.node_map()[st.visited[i]])
    &&& api_edge_lists_of(x.edges.0@, e, st.recorded)
    &&& id_lists(x.sibling_nodes@) == st.siblings
}

/// How often the label occurs.
pub fn count_label(v: &Vec<NodeLabel>, l: NodeLabel) -> (r: usize)
    ensures
        r == v@.to_multiset().count(l),
{
    let mut c: usize = 0;
    let mut i: usize = 0;
    while i < v.len()
        invariant
            i <= v@.len(),
            c == v@.subrange(0, i as int).to_multiset().count(l),
            c <= i,
        decreases v@.len() - i,
    {
        assert(v@.subrange(0, i as int + 1) =~= v@.subrange(0, i as int).push(v@[i as int]));
        if v[i] == l {
            c = c + 1;
        }
        i = i + 1;
    }
    assert(v@.subrange(0, v@.len() as int) =~= v@);
    c
}

/// True when the two lists hold the same labels, each as often.
pub fn same_label_multiset(a: &Vec<NodeLabel>, b: &Vec<NodeLabel>) -> (r: bool)
    ensures
        r == (a@.to_multiset() == b@.to_multiset()),
{
    let all = NodeLabel::all();
    let mut i: usize = 0;
    while i < all.len()
        invariant
            i <= all@.len(),
            forall|l: NodeLabel| #[trigger] all@.contains(l),
            forall|j: int| 0 <= j < i ==> a@.to_multiset().count(#[trigger] all@[j]) == b@.to_multiset().count(all@[j]),
        decreases all@.len() - i,
    {
        let l = all[i];
        if count_label(a, l) != count_label(b, l) {
            return false;
        }
        i = i + 1;
    }
    proof {
        assert forall|l: NodeLabel| a@.to_multiset().count(l) == b@.to_multiset().count(l) by {
            assert(all@.contains(l));
            let j = choose|j: int| 0 <= j < all@.len() && all@[j] == l;
        }
        assert(a@.to_multiset() =~= b@.to_multiset());
    }
    true
}

/// True when both nodes exist and hold the same labels, each as often.
pub fn nodes_share_labels(engine: &Engine, a: NodeId, b: NodeId) -> (r: bool)
    requires
        engine.wf(),
    ensures
        r == same_labels(engine, a, b),
{
    match (engine.get_node_by_id(&a), engine.get_node_by_id(&b)) {
        (Some(x), Some(y)) => same_label_multiset(&x.labels, &y.labels),
        _ => false,
    }
}

/// A copy of a list of IDs.
pub fn copy_ids(v: &Vec<NodeId>) -> (r: Vec<NodeId>)
    ensures
        r@ == v@,
{
    let c = v.clone();
    assert(c@ =~= v@);
    c
}

/// Node `t` joins the first group of nodes with its labels, or a new group.
pub fn join_group(engine: &Engine, groups: &mut Vec<Vec<NodeId>>, t: NodeId)
    requires
        engine.wf(),
    ensures
        id_lists(final(groups)@) == add_to_groups(engine, id_lists(old(groups)@), t),
{
    let ghost g = id_lists(groups@);
    let mut k: usize = 0;
    while k < groups.len()
        invariant
            engine.wf(),
            groups@ == old(groups)@,
            g == id_lists(groups@),
            k <= groups@.len(),
            forall|j: int| 0 <= j < k ==> !group_match(engine, g, t, j),
        decreases groups@.len() - k,
    {
        assert(g[k as int] == groups@[k as int]@);
        if groups[k].len() > 0 && nodes_share_labels(engine, groups[k][0], t) {
            assert(group_match(engine, g, t, k as int));
            assert(first_group_match(engine, g, t, k as int));
            let ghost kk = choose|kk: int| first_group_match(engine, g, t, kk);
            assert(kk == k) by {
                if kk < k {
                } else if kk > k {
                }
            }
            let mut inner = copy_ids(&groups[k]);
            inner.push(t);
            groups.set(k, inner);
            assert(id_lists(groups@) =~= g.update(k as int, g[k as int].push(t)));
            return;
        }
        k = k + 1;
    }
    assert(!exists|k: int| first_group_match(engine, g, t, k));
    let mut single: Vec<NodeId> = Vec::new();
    single.push(t);
    groups.push(single);
    assert(id_lists(groups@) =~= g.push(seq![t]));
}

/// The exec state of the walk, seen as an `ExploreState`.
pub open spec fn state_of(visited: Seq<NodeId>, next: Seq<NodeId>, recorded: Seq<(NodeId, APINodeEdges)>, siblings: Seq<Vec<NodeId>>) -> ExploreState {
    ExploreState {
        visited,
        next,
        recorded: recorded.map_values(|p: (NodeId, APINodeEdges)| p.0),
        siblings: id_lists(siblings),
    }
}

/// The walk from one node.
pub fn explore_from_node(
    engine: &Engine,
    n: NodeId,
    visited: &mut Vec<NodeId>,
    next: &mut Vec<NodeId>,
    recorded: &mut Vec<(NodeId, APINodeEdges)>,
    siblings: &mut Vec<Vec<NodeId>>,
)
    requires
        engine.wf(),
        api_edge_lists_of(old(recorded)@, engine, old(recorded)@.map_values(|p: (NodeId, APINodeEdges)| p.0)),
        forall|k: int| 0 <= k < old(visited)@.len() ==> engine.node_map().contains_key(#[trigger] old(visited)@[k]),
    ensures
        forall|k: int| 0 <= k < final(visited)@.len() ==> engine.node_map().contains_key(#[trigger] final(visited)@[k]),
        state_of(final(visited)@, final(next)@, final(recorded)@, final(siblings)@) == explore_node(
            engine,
            state_of(old(visited)@, old(next)@, old(recorded)@, old(siblings)@),
            n,
        ),
        api_edge_lists_of(final(recorded)@, engine, final(recorded)@.map_values(|p: (NodeId, APINodeEdges)| p.0)),
{
    let ghost st0 = state_of(visited@, next@, recorded@, siblings@);
    match engine.get_connected_nodes(&n) {
        None => {},
        Some(edges) => {
            let ghost s = edges.edges@;
            let mut groups: Vec<Vec<NodeId>> = Vec::new();
            let mut i: usize = 0;
            assert(s.subrange(0, 0) =~= Seq::<(NodeId, EdgeLabel)>::empty());
            while i < edges.edges.len()
                invariant
                    engine.wf(),
                    s == edges.edges@,
                    i <= s.len(),
                    recorded@ == old(recorded)@,
                    siblings@ == old(siblings)@,
                    forall|k: int| 0 <= k < visited@.len() ==> engine.node_map().contains_key(#[trigger] visited@[k]),
                    st0 == state_of(old(visited)@, old(next)@, old(recorded)@, old(siblings)@),
                    (state_of(visited@, next@, recorded@, siblings@), id_lists(groups@)) == visit_edges(
                        engine,
                        st0,
                        Seq::empty(),
                        s.subrange(0, i as int),
                    ),
                decreases s.len() - i,
            {
                let t = edges.edges[i].0;
                assert(s.subrange(0, i as int + 1).drop_last() =~= s.subrange(0, i as int));
                assert(s.subrange(0, i as int + 1).last().0 == t);
                if !ids_contain(visited, t) {
                    match engine.get_node_by_id(&t) {
                        Some(node) => {
                            if labels_contain(&node.labels, NodeLabel::Objective)
                                || labels_contain(&node.labels, NodeLabel::ProjectSettings)
                                || labels_contain(&node.labels, NodeLabel::CrawlerSettings)
                                || labels_contain(&node.labels, NodeLabel::ClassifierSettings)
                                || labels_contain(&node.labels, NodeLabel::Link)
                                || labels_contain(&node.labels, NodeLabel::DomainName)
                                || labels_contain(&node.labels, NodeLabel::WebSearch) {
                                visited.push(t);
                                next.push(t);
                                join_group(engine, &mut groups, t);
                            }
                        },
                        None => {},
                    }
                }
                i = i + 1;
            }
            assert(s.subrange(0, s.len() as int) =~= s);
            let ghost g = id_lists(groups@);
            let ghost before = siblings@;
            let mut j: usize = 0;
            while j < groups.len()
                invariant
                    j <= groups@.len(),
                    g == id_lists(groups@),
                    id_lists(siblings@) == id_lists(before) + g.subrange(0, j as int).filter(has_siblings()),
                decreases groups@.len() - j,
            {
                proof {
                    assert(g.subrange(0, j as int + 1) =~= g.subrange(0, j as int).push(g[j as int]));
                    crate::engine::api::lemma_filter_push(g.subrange(0, j as int), g[j as int], has_siblings());
                }
                if groups[j].len() > 1 {
                    let c = copy_ids(&groups[j]);
                    let ghost sb = siblings@;
                    siblings.push(c);
                    assert(id_lists(siblings@) =~= id_lists(sb).push(g[j as int]));
                }
                j = j + 1;
            }
            assert(g.subrange(0, groups@.len() as int) =~= g);
            let ghost r0 = recorded@;
            let a = api_node_edges(edges);
            recorded.push((n, a));
            proof {
                assert(recorded@.map_values(|p: (NodeId, APINodeEdges)| p.0) =~= r0.map_values(
                    |p: (NodeId, APINodeEdges)| p.0,
                ).push(n));
                let ids = recorded@.map_values(|p: (NodeId, APINodeEdges)| p.0);
                assert forall|k: int| 0 <= k < ids.len() implies {
                    &&& (#[trigger] recorded@[k]).0 == ids[k]
                    &&& crate::engine::api::api_edges_of(recorded@[k].1, engine.edge_map()[ids[k]])
                } by {
                    if k < r0.len() {
                        assert(recorded@[k] == r0[k]);
                    }
                }
            }
        },
    }
}

/// The explore answer from a starting node: the nodes of interest within
/// six levels of edges from it, the edge lists of the nodes on the first six
/// levels, and the groups of siblings found on the way.
pub fn explore(engine: &Engine, start: NodeId) -> (r: Explore)
    requires
        engine.wf(),
        engine.node_map().contains_key(start),
    ensures
        explore_of(r, engine, start),
{
    let mut visited: Vec<NodeId> = Vec::new();
    visited.push(start);
    let mut recorded: Vec<(NodeId, APINodeEdges)> = Vec::new();
    let mut siblings: Vec<Vec<NodeId>> = Vec::new();
    let mut level: Vec<NodeId> = Vec::new();
    level.push(start);
    let ghost init = ExploreState {
        visited: seq![start],
        next: Seq::empty(),
        recorded: Seq::empty(),
        siblings: Seq::empty(),
    };
    let ghost mut cur = init;
    assert(visited@ =~= seq![start]);
    assert(level@ =~= seq![start]);
    assert(recorded@.map_values(|p: (NodeId, APINodeEdges)| p.0) =~= Seq::<NodeId>::empty());
    assert(id_lists(siblings@) =~= Seq::<Seq<NodeId>>::empty());
    let mut d: u32 = 0;
    while d < EXPLORE_DEPTH
        invariant
            engine.wf(),
            d <= EXPLORE_DEPTH,
            cur.visited == visited@,
            cur.recorded == recorded@.map_values(|p: (NodeId, APINodeEdges)| p.0),
            cur.siblings == id_lists(siblings@),
            explore_depths(engine, cur, level@, (EXPLORE_DEPTH - d) as nat) == explored(engine, start),
            api_edge_lists_of(recorded@, engine, recorded@.map_values(|p: (NodeId, APINodeEdges)| p.0)),
            forall|k: int| 0 <= k < visited@.len() ==> engine.node_map().contains_key(#[trigger] visited@[k]),
        decreases EXPLORE_DEPTH - d,
    {
        let ghost cur0 = ExploreState { visited: cur.visited, next: Seq::empty(), recorded: cur.recorded, siblings: cur.siblings };
        let mut next: Vec<NodeId> = Vec::new();
        assert(state_of(visited@, next@, recorded@, siblings@) == cur0);
        assert(level@.subrange(0, 0) =~= Seq::<NodeId>::empty());
        let mut i: usize = 0;
        while i < level.len()
            invariant
                engine.wf(),
                i <= level@.len(),
                state_of(visited@, next@, recorded@, siblings@) == explore_level(engine, cur0, level@.subrange(0, i as int)),
                api_edge_lists_of(recorded@, engine, recorded@.map_values(|p: (NodeId, APINodeEdges)| p.0)),
                forall|k: int| 0 <= k < visited@.len() ==> engine.node_map().contains_key(#[trigger] visited@[k]),
            decreases level@.len() - i,
        {
            let n = level[i];
            assert(level@.subrange(0, i as int + 1).drop_last() =~= level@.subrange(0, i as int));
            explore_from_node(engine, n, &mut visited, &mut next, &mut recorded, &mut siblings);
            i = i + 1;
        }
        assert(level@.subrange(0, level@.len() as int) =~= level@);
        proof {
            cur = explore_level(engine, cur0, level@);
        }
        level = next;
        d = d + 1;
    }
    let mut nodes: Vec<APINodeItem> = Vec::new();
    let mut i: usize = 0;
    while i < visited.len()
        invariant
            engine.wf(),
            i <= visited@.len(),
            nodes@.len() == i,
            forall|k: int| 0 <= k < visited@.len() ==> engine.node_map().contains_key(#[trigger] visited@[k]),
            forall|k: int| 0 <= k < i ==> api_node_of(#[trigger] nodes@[k], engine.node_map()[visited@[k]]),
        decreases visited@.len() - i,
    {
        let id = visited[i];
        assert(engine.node_map().contains_key(visited@[i as int]));
        let node = engine.get_node_by_id(&id).unwrap();
        nodes.push(APINodeItem::from_node(node));
        i = i + 1;
    }
    Explore { nodes, edges: APIEdges(recorded), sibling_nodes: siblings }
}

} // verus!
