use vstd::prelude::*;
use vstd::hash_map::HashMapWithView;
use crate::fetch::{InternalFetchRequest, InternalFetchRequestView};
use crate::engine::flags::NodeFlags;
use crate::engine::labels::{EdgeLabel, NodeId, NodeLabel};
use crate::engine::node::{
    clone_labels, copy_edges, labels_contain, NodeEdges, NodeEdgesView, NodeItem, NodeItemView, Payload,
    PayloadView,
};

verus! {

broadcast use vstd::std_specs::hash::group_hash_axioms;

/// The graph of a project: all nodes, all edges, and the counters that the
/// engine keeps beside them.
pub struct Engine {
    nodes: HashMapWithView<u32, NodeItem>,
    node_ids: Vec<u32>,
    edges: HashMapWithView<u32, NodeEdges>,
    edge_node_ids: Vec<u32>,
    last_node_id: u32,
    count_open_fetch_requests: u32,
    project_uuid: String,
    outbox: Vec<InternalFetchRequest>,
    clock_millis: i64,
}

/// The IDs that `targets_with_label` lists: the nodes at the other end of
/// edges with the given label, each once, in the order of their first edge.
pub open spec fn targets_with_label(edges: Seq<(NodeId, EdgeLabel)>, label: EdgeLabel) -> Seq<NodeId>
    decreases edges.len(),
{
    if edges.len() == 0 {
        Seq::empty()
    } else {
        let prev = targets_with_label(edges.drop_last(), label);
        let e = edges.last();
        if e.1 == label && !prev.contains(e.0) {
            prev.push(e.0)
        } else {
            prev
        }
    }
}

/// The node IDs of `ids` whose node holds `label`, in the same order.
pub open spec fn ids_with_label(ids: Seq<NodeId>, nodes: Map<NodeId, NodeItemView>, label: NodeLabel) -> Seq<NodeId>
    decreases ids.len(),
{
    if ids.len() == 0 {
        Seq::empty()
    } else {
        let prev = ids_with_label(ids.drop_last(), nodes, label);
        if nodes[ids.last()].labels.contains(label) {
            prev.push(ids.last())
        } else {
            prev
        }
    }
}

/// The edge list of `id` after an edge to `other` with label `label` is added.
pub open spec fn with_edge(edges: Map<NodeId, NodeEdgesView>, id: NodeId, other: NodeId, label: EdgeLabel) -> Seq<(NodeId, EdgeLabel)> {
    if edges.contains_key(id) {
        edges[id].edges.push((other, label))
    } else {
        seq![(other, label)]
    }
}

/// Pushing an element that a sequence lacks keeps it free of duplicates, and
/// the new sequence contains exactly the old elements and the new one.
pub proof fn lemma_push_fresh<T>(s: Seq<T>, x: T)
    requires
        s.no_duplicates(),
        !s.contains(x),
    ensures
        s.push(x).no_duplicates(),
        forall|k: T| #[trigger] s.push(x).contains(k) <==> (s.contains(k) || k == x),
{
    let t = s.push(x);
    assert forall|i: int, j: int| 0 <= i < t.len() && 0 <= j < t.len() && i != j implies t[i] != t[j] by {
        if i < s.len() && j < s.len() {
        } else if i < s.len() {
            assert(t[j] == x);
            assert(s[i] == t[i]);
        } else {
            assert(t[i] == x);
            assert(s[j] == t[j]);
        }
    }
    assert forall|k: T| #[trigger] t.contains(k) <==> (s.contains(k) || k == x) by {
        if t.contains(k) {
            let j = choose|j: int| 0 <= j < t.len() && t[j] == k;
            if j < s.len() {
                assert(s[j] == k);
            }
        }
        if s.contains(k) {
            let j = choose|j: int| 0 <= j < s.len() && s[j] == k;
            assert(t[j] == k);
        }
        if k == x {
            assert(t[s.len() as int] == k);
        }
    }
}

/// The first ID of `ids` that satisfies `p`.
pub open spec fn first_where(ids: Seq<NodeId>, p: spec_fn(NodeId) -> bool) -> Option<NodeId>
    decreases ids.len(),
{
    if ids.len() == 0 {
        None
    } else if p(ids[0]) {
        Some(ids[0])
    } else {
        first_where(ids.subrange(1, ids.len() as int), p)
    }
}

/// When the IDs before position `i` fail `p`, the first match is that of the
/// rest of the sequence from `i` on.
pub proof fn lemma_first_where_skip(ids: Seq<NodeId>, p: spec_fn(NodeId) -> bool, i: int)
    requires
        0 <= i <= ids.len(),
        forall|j: int| 0 <= j < i ==> !p(#[trigger] ids[j]),
    ensures
        first_where(ids, p) == first_where(ids.subrange(i, ids.len() as int), p),
    decreases i,
{
    if i > 0 {
        let rest = ids.subrange(1, ids.len() as int);
        assert forall|j: int| 0 <= j < i - 1 implies !p(#[trigger] rest[j]) by {
            assert(rest[j] == ids[j + 1]);
        }
        lemma_first_where_skip(rest, p, i - 1);
        assert(rest.subrange(i - 1, rest.len() as int) =~= ids.subrange(i, ids.len() as int));
    } else {
        assert(ids.subrange(0, ids.len() as int) =~= ids);
    }
}

/// The first match of `p` is at position `i` when no earlier ID matches.
pub proof fn lemma_first_where_at(ids: Seq<NodeId>, p: spec_fn(NodeId) -> bool, i: int)
    requires
        0 <= i < ids.len(),
        forall|j: int| 0 <= j < i ==> !p(#[trigger] ids[j]),
        p(ids[i]),
    ensures
        first_where(ids, p) == Some(ids[i]),
{
    lemma_first_where_skip(ids, p, i);
    assert(ids.subrange(i, ids.len() as int)[0] == ids[i]);
}

/// There is no match of `p` when no ID matches.
pub proof fn lemma_first_where_none(ids: Seq<NodeId>, p: spec_fn(NodeId) -> bool)
    requires
        forall|j: int| 0 <= j < ids.len() ==> !p(#[trigger] ids[j]),
    ensures
        first_where(ids, p) == None::<NodeId>,
{
    lemma_first_where_skip(ids, p, ids.len() as int);
    assert(ids.subrange(ids.len() as int, ids.len() as int).len() == 0);
}

/// True when the vector holds the ID.
pub fn ids_contain(v: &Vec<NodeId>, id: NodeId) -> (r: bool)
    ensures
        r == v@.contains(id),
{
    let mut i: usize = 0;
    while i < v.len()
        invariant
            i <= v@.len(),
            forall|j: int| 0 <= j < i ==> v@[j] != id,
        decreases v@.len() - i,
    {
        if v[i] == id {
            return true;
        }
        i = i + 1;
    }
    false
}

/// The edge lists after an edge from `from` to `to` is added, written at `w`.
pub open spec fn edges_with_edge(m: Map<NodeId, NodeEdgesView>, from: NodeId, to: NodeId, label: EdgeLabel, w: i64) -> Map<NodeId, NodeEdgesView> {
    m.insert(from, NodeEdgesView { edges: with_edge(m, from, to, label), written_at: w })
}

/// The edge lists after connecting `ids.0` to `ids.1` with `labels.0` and
/// `ids.1` back to `ids.0` with `labels.1`, both written at `w`.
pub open spec fn edges_after_connection(m: Map<NodeId, NodeEdgesView>, ids: (NodeId, NodeId), labels: (EdgeLabel, EdgeLabel), w: i64) -> Map<NodeId, NodeEdgesView> {
    edges_with_edge(edges_with_edge(m, ids.0, ids.1, labels.0, w), ids.1, ids.0, labels.1, w)
}

/// The order of edge lists after an edge list for `id` is created, if it
/// did not exist.
pub open spec fn order_with(order: Seq<NodeId>, id: NodeId) -> Seq<NodeId> {
    if order.contains(id) {
        order
    } else {
        order.push(id)
    }
}

/// The node with a new payload, written at `w`.
pub open spec fn with_payload(n: NodeItemView, p: PayloadView, w: i64) -> NodeItemView {
    NodeItemView { id: n.id, labels: n.labels, payload: p, flags: n.flags, written_at: w }
}

/// The nodes after toggling flags of node `id`, written at `w`, when it is
/// present.
pub open spec fn toggled_in(m: Map<NodeId, NodeItemView>, id: NodeId, f: NodeFlags, w: i64) -> Map<NodeId, NodeItemView> {
    if m.contains_key(id) {
        m.insert(id, with_toggled(m[id], f, w))
    } else {
        m
    }
}

/// The node with some flags toggled, written at `w`.
pub open spec fn with_toggled(n: NodeItemView, f: NodeFlags, w: i64) -> NodeItemView {
    NodeItemView { id: n.id, labels: n.labels, payload: n.payload, flags: n.flags.toggled(f), written_at: w }
}

/// Every ID that `ids_with_label` keeps comes from `ids` and holds the label.
pub proof fn lemma_ids_with_label(ids: Seq<NodeId>, nodes: Map<NodeId, NodeItemView>, label: NodeLabel)
    ensures
        forall|x: NodeId| #[trigger] ids_with_label(ids, nodes, label).contains(x) ==> ids.contains(x)
            && nodes[x].labels.contains(label),
        forall|x: NodeId| ids.contains(x) && nodes[x].labels.contains(label) ==> #[trigger] ids_with_label(ids, nodes, label).contains(x),
        ids.no_duplicates() ==> ids_with_label(ids, nodes, label).no_duplicates(),
    decreases ids.len(),
{
    if ids.len() > 0 {
        let prev = ids.drop_last();
        lemma_ids_with_label(prev, nodes, label);
        let r = ids_with_label(ids, nodes, label);
        let rp = ids_with_label(prev, nodes, label);
        assert forall|x: NodeId| #[trigger] r.contains(x) implies ids.contains(x) && nodes[x].labels.contains(label) by {
            if rp.contains(x) {
                let j = choose|j: int| 0 <= j < prev.len() && prev[j] == x;
                assert(ids[j] == x);
            } else {
                let j = choose|j: int| 0 <= j < r.len() && r[j] == x;
                assert(r == rp.push(ids.last()));
                assert(x == ids.last());
                assert(ids[ids.len() - 1] == x);
            }
        }
        assert forall|x: NodeId| ids.contains(x) && nodes[x].labels.contains(label) implies #[trigger] r.contains(x) by {
            let j = choose|j: int| 0 <= j < ids.len() && ids[j] == x;
            if j < ids.len() - 1 {
                assert(prev[j] == x);
                assert(rp.contains(x));
                let k = choose|k: int| 0 <= k < rp.len() && rp[k] == x;
                if nodes[ids.last()].labels.contains(label) {
                    assert(r[k] == x);
                }
            } else {
                assert(r == rp.push(ids.last()));
                assert(r[r.len() - 1] == x);
            }
        }
        if ids.no_duplicates() {
            assert(prev.no_duplicates());
            if nodes[ids.last()].labels.contains(label) {
                if rp.contains(ids.last()) {
                    let j = choose|j: int| 0 <= j < prev.len() && prev[j] == ids.last();
                    assert(ids[j] == ids[ids.len() - 1]);
                }
                lemma_push_fresh(rp, ids.last());
            }
        }
    }
}

/// The IDs that `get_node_ids_connected_with_label` returns.
pub open spec fn connected_ids(e: &Engine, id: NodeId, label: EdgeLabel) -> Seq<NodeId> {
    if e.edge_map().contains_key(id) {
        targets_with_label(e.edge_map()[id].edges, label)
    } else {
        Seq::empty()
    }
}

/// The IDs that `get_node_ids_with_label` returns.
pub open spec fn labelled_ids(e: &Engine, label: NodeLabel) -> Seq<NodeId> {
    ids_with_label(e.node_order(), e.node_map(), label)
}

impl Engine {
    pub closed spec fn wf(&self) -> bool {
        &&& self.node_ids@.no_duplicates()
        &&& forall|k: u32| self.nodes@.contains_key(k) <==> #[trigger] self.node_ids@.contains(k)
        &&& forall|k: u32| #[trigger] self.nodes@.contains_key(k) ==> self.nodes@[k].id == k
        &&& self.edge_node_ids@.no_duplicates()
        &&& forall|k: u32| self.edges@.contains_key(k) <==> #[trigger] self.edge_node_ids@.contains(k)
    }

    /// All nodes, by ID.
    pub closed spec fn node_map(&self) -> Map<NodeId, NodeItemView> {
        Map::new(|k: u32| self.nodes@.contains_key(k), |k: u32| self.nodes@[k]@)
    }

    /// The IDs of all nodes, each once, in the order in which they were added.
    pub closed spec fn node_order(&self) -> Seq<NodeId> {
        self.node_ids@
    }

    /// All edge lists, by the ID of the node they start from.
    pub closed spec fn edge_map(&self) -> Map<NodeId, NodeEdgesView> {
        Map::new(|k: u32| self.edges@.contains_key(k), |k: u32| self.edges@[k]@)
    }

    /// The IDs of all nodes with an edge list, each once, in the order in
    /// which their first edge was added.
    pub closed spec fn edge_order(&self) -> Seq<NodeId> {
        self.edge_node_ids@
    }

    /// The ID that the next new node receives.
    pub closed spec fn next_node_id(&self) -> u32 {
        self.last_node_id
    }

    /// The time, in milliseconds since the UNIX epoch, that writes are
    /// stamped with. Only `set_clock` changes it.
    pub closed spec fn clock(&self) -> i64 {
        self.clock_millis
    }

    /// The number of fetch requests sent and not yet answered.
    pub closed spec fn open_fetch_requests(&self) -> u32 {
        self.count_open_fetch_requests
    }

    pub closed spec fn project_id(&self) -> Seq<char> {
        self.project_uuid@
    }

    /// The fetch requests decided on and not yet handed to the fetcher, oldest
    /// first.
    pub closed spec fn outbox(&self) -> Seq<InternalFetchRequestView> {
        self.outbox@.map_values(|r: InternalFetchRequest| r@)
    }

    /// What a well-formed engine guarantees about its node and edge indexes.
    pub proof fn lemma_wf(&self)
        requires
            self.wf(),
        ensures
            self.node_order().no_duplicates(),
            forall|k: NodeId| self.node_map().contains_key(k) <==> #[trigger] self.node_order().contains(k),
            forall|k: NodeId| #[trigger] self.node_map().contains_key(k) ==> self.node_map()[k].id == k,
            self.edge_order().no_duplicates(),
            forall|k: NodeId| self.edge_map().contains_key(k) <==> #[trigger] self.edge_order().contains(k),
    {
        assert forall|k: NodeId| self.node_map().contains_key(k) <==> #[trigger] self.node_order().contains(k) by {}
        assert forall|k: NodeId| #[trigger] self.node_map().contains_key(k) implies self.node_map()[k].id == k by {}
        assert forall|k: NodeId| self.edge_map().contains_key(k) <==> #[trigger] self.edge_order().contains(k) by {}
    }

    /// An empty graph for the project with the given ID.
    pub fn new(project_uuid: String) -> (r: Engine)
        ensures
            r.wf(),
            r.node_map() == Map::<NodeId, NodeItemView>::empty(),
            r.node_order() == Seq::<NodeId>::empty(),
            r.edge_map() == Map::<NodeId, NodeEdgesView>::empty(),
            r.edge_order() == Seq::<NodeId>::empty(),
            r.next_node_id() == 0,
            r.open_fetch_requests() == 0,
            r.project_id() == project_uuid@,
            r.outbox() == Seq::<InternalFetchRequestView>::empty(),
            r.clock() == 0,
    {
        let r = Engine {
            nodes: HashMapWithView::new(),
            node_ids: Vec::new(),
            edges: HashMapWithView::new(),
            edge_node_ids: Vec::new(),
            last_node_id: 0,
            count_open_fetch_requests: 0,
            project_uuid,
            outbox: Vec::new(),
            clock_millis: 0,
        };
        assert(r.outbox() =~= Seq::<InternalFetchRequestView>::empty());
        assert(r.node_map() =~= Map::<NodeId, NodeItemView>::empty());
        assert(r.edge_map() =~= Map::<NodeId, NodeEdgesView>::empty());
        r
    }

    /// Sets the time, in milliseconds since the UNIX epoch, that the
    /// following writes are stamped with. The caller reads the clock.
    pub fn set_clock(&mut self, now: i64)
        requires
            old(self).wf(),
        ensures
            final(self).wf(),
            final(self).clock() == now,
            final(self).node_map() == old(self).node_map(),
            final(self).node_order() == old(self).node_order(),
            final(self).edge_map() == old(self).edge_map(),
            final(self).edge_order() == old(self).edge_order(),
            final(self).next_node_id() == old(self).next_node_id(),
            final(self).open_fetch_requests() == old(self).open_fetch_requests(),
            final(self).project_id() == old(self).project_id(),
            final(self).outbox() == old(self).outbox(),
    {
        self.clock_millis = now;
    }

    pub fn get_project_id(&self) -> (r: &str)
        ensures
            r@ == self.project_id(),
    {
        self.project_uuid.as_str()
    }

    /// The node with the given ID, if there is one.
    pub fn get_node_by_id(&self, node_id: &NodeId) -> (r: Option<&NodeItem>)
        requires
            self.wf(),
        ensures
            match r {
                Some(n) => self.node_map().contains_key(*node_id) && n@ == self.node_map()[*node_id],
                None => !self.node_map().contains_key(*node_id),
            },
    {
        self.nodes.get(node_id)
    }

    /// Stores a node under its own ID, replacing any node with that ID.
    fn put_node(&mut self, item: NodeItem)
        requires
            old(self).wf(),
        ensures
            final(self).wf(),
            final(self).node_map() == old(self).node_map().insert(item.id, item@),
            final(self).node_order() == if old(self).node_map().contains_key(item.id) {
                old(self).node_order()
            } else {
                old(self).node_order().push(item.id)
            },
            final(self).edge_map() == old(self).edge_map(),
            final(self).edge_order() == old(self).edge_order(),
            final(self).next_node_id() == old(self).next_node_id(),
            final(self).open_fetch_requests() == old(self).open_fetch_requests(),
            final(self).project_id() == old(self).project_id(),
            final(self).outbox() == old(self).outbox(),
    {
        let id = item.id;
        let ghost iv = item@;
        let ghost old_ids = self.node_ids@;
        if !self.nodes.contains_key(&id) {
            proof {
                lemma_push_fresh(old_ids, id);
            }
            self.node_ids.push(id);
        }
        self.nodes.insert(id, item);
        assert(self.node_map() =~= old(self).node_map().insert(id, iv));
        assert(self.edge_map() =~= old(self).edge_map());
    }
}

impl Engine {
    /// Adds a node with the given ID, payload and labels, with no flags set,
    /// replacing any node with that ID.
    /// The ID that the next new node receives.
    pub(crate) fn peek_next_node_id(&self) -> (r: u32)
        ensures
            r == self.next_node_id(),
    {
        self.last_node_id
    }

    /// Hands out the next node ID and advances the counter, wrapping around
    /// after the largest `u32`.
    pub(crate) fn take_next_node_id(&mut self) -> (id: u32)
        requires
            old(self).wf(),
        ensures
            final(self).wf(),
            id == old(self).next_node_id(),
            final(self).next_node_id() == crate::engine::ops::following_id(id),
            final(self).node_map() == old(self).node_map(),
            final(self).node_order() == old(self).node_order(),
            final(self).edge_map() == old(self).edge_map(),
            final(self).edge_order() == old(self).edge_order(),
            final(self).open_fetch_requests() == old(self).open_fetch_requests(),
            final(self).project_id() == old(self).project_id(),
            final(self).outbox() == old(self).outbox(),
    {
        let id = self.last_node_id;
        self.last_node_id = self.last_node_id.wrapping_add(1);
        id
    }

    pub(crate) fn create_node(&mut self, id: NodeId, payload: Payload, labels: Vec<NodeLabel>)
        requires
            old(self).wf(),
        ensures
            final(self).wf(),
            final(self).node_map() == old(self).node_map().insert(
                id,
                NodeItemView {
                    id,
                    labels: labels@,
                    payload: payload@,
                    flags: NodeFlags { bits: 0 },
                    written_at: old(self).clock(),
                },
            ),
            final(self).node_order() == order_with(old(self).node_order(), id),
            final(self).edge_map() == old(self).edge_map(),
            final(self).edge_order() == old(self).edge_order(),
            final(self).next_node_id() == old(self).next_node_id(),
            final(self).open_fetch_requests() == old(self).open_fetch_requests(),
            final(self).project_id() == old(self).project_id(),
            final(self).outbox() == old(self).outbox(),
    {
        proof {
            old(self).lemma_wf();
        }
        let now = self.clock_millis;
        let item = NodeItem { id, labels, payload, flags: NodeFlags::empty(), written_at: now };
        self.put_node(item);
    }

    /// Replaces the payload of a node and marks it as written now. Does
    /// nothing when there is no node with that ID.
    pub fn update_node(&mut self, node_id: &NodeId, payload: Payload)
        requires
            old(self).wf(),
        ensures
            final(self).wf(),
            old(self).node_map().contains_key(*node_id) ==> final(self).node_map()
                == old(self).node_map().insert(
                *node_id,
                with_payload(
                    old(self).node_map()[*node_id],
                    payload@,
                    old(self).clock(),
                ),
            ),
            !old(self).node_map().contains_key(*node_id) ==> final(self).node_map()
                == old(self).node_map(),
            final(self).node_order() == old(self).node_order(),
            final(self).edge_map() == old(self).edge_map(),
            final(self).edge_order() == old(self).edge_order(),
            final(self).next_node_id() == old(self).next_node_id(),
            final(self).open_fetch_requests() == old(self).open_fetch_requests(),
            final(self).project_id() == old(self).project_id(),
            final(self).outbox() == old(self).outbox(),
    {
        proof {
            old(self).lemma_wf();
        }
        let labels = match self.nodes.get(node_id) {
            Some(node) => clone_labels(&node.labels),
            None => return,
        };
        let flags = self.nodes.get(node_id).unwrap().flags;
        let now = self.clock_millis;
        let item = NodeItem { id: *node_id, labels, payload, flags, written_at: now };
        self.put_node(item);
    }

    /// Toggles flags of a node and marks it as written now. Does nothing when
    /// there is no node with that ID.
    pub fn toggle_flag(&mut self, node_id: &NodeId, flag: NodeFlags)
        requires
            old(self).wf(),
        ensures
            final(self).wf(),
            old(self).node_map().contains_key(*node_id) ==> final(self).node_map()
                == old(self).node_map().insert(
                *node_id,
                with_toggled(
                    old(self).node_map()[*node_id],
                    flag,
                    old(self).clock(),
                ),
            ),
            !old(self).node_map().contains_key(*node_id) ==> final(self).node_map()
                == old(self).node_map(),
            final(self).node_order() == old(self).node_order(),
            final(self).edge_map() == old(self).edge_map(),
            final(self).edge_order() == old(self).edge_order(),
            final(self).next_node_id() == old(self).next_node_id(),
            final(self).open_fetch_requests() == old(self).open_fetch_requests(),
            final(self).project_id() == old(self).project_id(),
            final(self).outbox() == old(self).outbox(),
    {
        proof {
            old(self).lemma_wf();
        }
        let mut item = match self.nodes.get(node_id) {
            Some(node) => node.clone(),
            None => return,
        };
        item.flags.toggle(flag);
        item.written_at = self.clock_millis;
        self.put_node(item);
    }

    /// Adds one edge to the edge list of `from`, creating the list when
    /// needed, and marks the list as written at `now`.
    fn push_edge(&mut self, from: NodeId, to: NodeId, label: EdgeLabel, now: i64)
        requires
            old(self).wf(),
        ensures
            final(self).wf(),
            final(self).edge_map() == edges_with_edge(old(self).edge_map(), from, to, label, now),
            final(self).edge_order() == order_with(old(self).edge_order(), from),
            final(self).node_map() == old(self).node_map(),
            final(self).node_order() == old(self).node_order(),
            final(self).next_node_id() == old(self).next_node_id(),
            final(self).open_fetch_requests() == old(self).open_fetch_requests(),
            final(self).project_id() == old(self).project_id(),
            final(self).outbox() == old(self).outbox(),
    {
        proof {
            old(self).lemma_wf();
        }
        let mut list: Vec<(NodeId, EdgeLabel)> = match self.edges.get(&from) {
            Some(e) => copy_edges(&e.edges),
            None => {
                let ghost old_ids = self.edge_node_ids@;
                proof {
                    lemma_push_fresh(old_ids, from);
                }
                self.edge_node_ids.push(from);
                Vec::new()
            },
        };
        list.push((to, label));
        let ghost lv = list@;
        self.edges.insert(from, NodeEdges { edges: list, written_at: now });
        assert(lv =~= with_edge(old(self).edge_map(), from, to, label));
        assert(self.edge_map() =~= edges_with_edge(old(self).edge_map(), from, to, label, now));
        assert(self.node_map() =~= old(self).node_map());
    }

    /// Connects two nodes with a pair of edges, one in each direction, and
    /// marks both edge lists as written now.
    pub fn add_connection(&mut self, node_ids: (NodeId, NodeId), edge_labels: (EdgeLabel, EdgeLabel))
        requires
            old(self).wf(),
        ensures
            final(self).wf(),
            final(self).edge_map() == edges_after_connection(
                old(self).edge_map(),
                node_ids,
                edge_labels,
                old(self).clock(),
            ),
            final(self).edge_order() == order_with(order_with(old(self).edge_order(), node_ids.0), node_ids.1),
            final(self).node_map() == old(self).node_map(),
            final(self).node_order() == old(self).node_order(),
            final(self).next_node_id() == old(self).next_node_id(),
            final(self).open_fetch_requests() == old(self).open_fetch_requests(),
            final(self).project_id() == old(self).project_id(),
            final(self).outbox() == old(self).outbox(),
    {
        let now = self.clock_millis;
        self.push_edge(node_ids.0, node_ids.1, edge_labels.0, now);
        self.push_edge(node_ids.1, node_ids.0, edge_labels.1, now);
    }

    /// The edge list of a node, if it has one.
    pub fn get_connected_nodes(&self, my_node_id: &NodeId) -> (r: Option<&NodeEdges>)
        requires
            self.wf(),
        ensures
            match r {
                Some(e) => self.edge_map().contains_key(*my_node_id) && e@ == self.edge_map()[*my_node_id],
                None => !self.edge_map().contains_key(*my_node_id),
            },
    {
        self.edges.get(my_node_id)
    }

    /// The IDs of the nodes that `my_node_id` has an edge to with the given
    /// label, each once, in the order of the first such edge.
    pub fn get_node_ids_connected_with_label(&self, my_node_id: &NodeId, my_edge_to_other: &EdgeLabel) -> (r: Vec<NodeId>)
        requires
            self.wf(),
        ensures
            r@ == if self.edge_map().contains_key(*my_node_id) {
                targets_with_label(self.edge_map()[*my_node_id].edges, *my_edge_to_other)
            } else {
                Seq::empty()
            },
    {
        let mut connected: Vec<NodeId> = Vec::new();
        match self.edges.get(my_node_id) {
            Some(node_edges) => {
                let edges = &node_edges.edges;
                let ghost es = edges@;
                let mut i: usize = 0;
                assert(es.take(0) =~= Seq::<(NodeId, EdgeLabel)>::empty());
                while i < edges.len()
                    invariant
                        i <= es.len(),
                        es == edges@,
                        connected@ == targets_with_label(es.take(i as int), *my_edge_to_other),
                    decreases es.len() - i,
                {
                    let (other, label) = edges[i];
                    assert(es.take(i as int + 1).drop_last() =~= es.take(i as int));
                    if label == *my_edge_to_other && !ids_contain(&connected, other) {
                        connected.push(other);
                    }
                    i = i + 1;
                }
                assert(es.take(es.len() as int) =~= es);
            },
            None => {},
        }
        connected
    }

    /// The IDs of all nodes that hold the label, in the order the nodes were
    /// added.
    pub fn get_node_ids_with_label(&self, label: &NodeLabel) -> (r: Vec<NodeId>)
        requires
            self.wf(),
        ensures
            r@ == ids_with_label(self.node_order(), self.node_map(), *label),
    {
        proof {
            self.lemma_wf();
        }
        let mut r: Vec<NodeId> = Vec::new();
        let ghost ids = self.node_ids@;
        let mut i: usize = 0;
        assert(ids.take(0) =~= Seq::<NodeId>::empty());
        while i < self.node_ids.len()
            invariant
                self.wf(),
                ids == self.node_ids@,
                i <= ids.len(),
                r@ == ids_with_label(ids.take(i as int), self.node_map(), *label),
            decreases ids.len() - i,
        {
            let id = self.node_ids[i];
            assert(ids.take(i as int + 1).drop_last() =~= ids.take(i as int));
            assert(ids.contains(id));
            let node = self.nodes.get(&id).unwrap();
            if crate::engine::node::labels_contain(&node.labels, *label) {
                r.push(id);
            }
            i = i + 1;
        }
        assert(ids.take(ids.len() as int) =~= ids);
        r
    }
}

impl Engine {
    /// Queues a request for the fetcher.
    pub(crate) fn push_outbox(&mut self, request: InternalFetchRequest)
        requires
            old(self).wf(),
        ensures
            final(self).wf(),
            final(self).outbox() == old(self).outbox().push(request@),
            final(self).node_map() == old(self).node_map(),
            final(self).node_order() == old(self).node_order(),
            final(self).edge_map() == old(self).edge_map(),
            final(self).edge_order() == old(self).edge_order(),
            final(self).next_node_id() == old(self).next_node_id(),
            final(self).open_fetch_requests() == old(self).open_fetch_requests(),
            final(self).project_id() == old(self).project_id(),
    {
        let ghost rv = request@;
        self.outbox.push(request);
        assert(self.outbox() =~= old(self).outbox().push(rv));
        assert(self.node_map() =~= old(self).node_map());
        assert(self.edge_map() =~= old(self).edge_map());
    }

    /// Hands over all queued fetch requests, oldest first, and empties the
    /// queue.
    pub fn take_outbox(&mut self) -> (r: Vec<InternalFetchRequest>)
        requires
            old(self).wf(),
        ensures
            final(self).wf(),
            r@.map_values(|x: InternalFetchRequest| x@) == old(self).outbox(),
            final(self).outbox() == Seq::<InternalFetchRequestView>::empty(),
            final(self).node_map() == old(self).node_map(),
            final(self).node_order() == old(self).node_order(),
            final(self).edge_map() == old(self).edge_map(),
            final(self).edge_order() == old(self).edge_order(),
            final(self).next_node_id() == old(self).next_node_id(),
            final(self).open_fetch_requests() == old(self).open_fetch_requests(),
            final(self).project_id() == old(self).project_id(),
    {
        let mut r: Vec<InternalFetchRequest> = Vec::new();
        std::mem::swap(&mut r, &mut self.outbox);
        assert(self.outbox() =~= Seq::<InternalFetchRequestView>::empty());
        assert(self.node_map() =~= old(self).node_map());
        assert(self.edge_map() =~= old(self).edge_map());
        r
    }

    /// Counts one more open fetch request; the count wraps around after the
    /// largest `u32`.
    pub(crate) fn count_request_opened(&mut self)
        requires
            old(self).wf(),
        ensures
            final(self).wf(),
            final(self).open_fetch_requests() == crate::engine::ops::following_id(old(self).open_fetch_requests()),
            final(self).outbox() == old(self).outbox(),
            final(self).node_map() == old(self).node_map(),
            final(self).node_order() == old(self).node_order(),
            final(self).edge_map() == old(self).edge_map(),
            final(self).edge_order() == old(self).edge_order(),
            final(self).next_node_id() == old(self).next_node_id(),
            final(self).project_id() == old(self).project_id(),
    {
        self.count_open_fetch_requests = self.count_open_fetch_requests.wrapping_add(1);
    }

    /// Counts one open fetch request less; below zero the count wraps around
    /// to the largest `u32`.
    pub(crate) fn count_request_closed(&mut self)
        requires
            old(self).wf(),
        ensures
            final(self).wf(),
            final(self).open_fetch_requests() == crate::engine::ops::preceding_id(old(self).open_fetch_requests()),
            final(self).outbox() == old(self).outbox(),
            final(self).node_map() == old(self).node_map(),
            final(self).node_order() == old(self).node_order(),
            final(self).edge_map() == old(self).edge_map(),
            final(self).edge_order() == old(self).edge_order(),
            final(self).next_node_id() == old(self).next_node_id(),
            final(self).project_id() == old(self).project_id(),
    {
        self.count_open_fetch_requests = self.count_open_fetch_requests.wrapping_sub(1);
    }

    pub(crate) fn count_open_fetch_requests_at_limit(&self) -> (r: bool)
        ensures
            r == (self.open_fetch_requests() >= crate::engine::fetching::MAX_OPEN_FETCH_REQUESTS),
    {
        self.count_open_fetch_requests >= crate::engine::fetching::MAX_OPEN_FETCH_REQUESTS
    }

    pub(crate) fn project_uuid_clone(&self) -> (r: String)
        ensures
            r@ == self.project_id(),
    {
        self.project_uuid.clone()
    }

    /// The number of nodes.
    pub fn node_count(&self) -> (r: usize)
        requires
            self.wf(),
        ensures
            r == self.node_order().len(),
    {
        self.node_ids.len()
    }

    /// The ID of the node added in position `i`.
    pub fn node_id_at(&self, i: usize) -> (r: NodeId)
        requires
            self.wf(),
            i < self.node_order().len(),
        ensures
            r == self.node_order()[i as int],
    {
        self.node_ids[i]
    }

    pub fn get_open_fetch_requests(&self) -> (r: u32)
        ensures
            r == self.open_fetch_requests(),
    {
        self.count_open_fetch_requests
    }
}

impl Engine {
    /// The number of nodes with an edge list.
    pub fn edge_owner_count(&self) -> (r: usize)
        requires
            self.wf(),
        ensures
            r == self.edge_order().len(),
    {
        self.edge_node_ids.len()
    }

    /// The ID of the node whose edge list was started in position `i`.
    pub fn edge_owner_at(&self, i: usize) -> (r: NodeId)
        requires
            self.wf(),
            i < self.edge_order().len(),
        ensures
            r == self.edge_order()[i as int],
    {
        self.edge_node_ids[i]
    }

    /// Every label that some node holds, each once.
    pub fn get_all_node_labels(&self) -> (r: Vec<NodeLabel>)
        requires
            self.wf(),
        ensures
            is_label_listing(self, r@),
    {
        proof {
            self.lemma_wf();
        }
        let mut r: Vec<NodeLabel> = Vec::new();
        let n = self.node_count();
        let mut i: usize = 0;
        while i < n
            invariant
                self.wf(),
                n == self.node_order().len(),
                i <= n,
                r@.no_duplicates(),
                forall|l: NodeLabel| #[trigger] r@.contains(l) <==> exists|j: int| 0 <= j < i
                    && #[trigger] self.node_map()[self.node_order()[j]].labels.contains(l),
                forall|k: NodeId| self.node_map().contains_key(k) <==> #[trigger] self.node_order().contains(k),
            decreases n - i,
        {
            let id = self.node_id_at(i);
            assert(self.node_order().contains(id));
            let node = self.get_node_by_id(&id).unwrap();
            let ghost before = r@;
            let mut m: usize = 0;
            while m < node.labels.len()
                invariant
                    0 <= m <= node.labels@.len(),
                    r@.no_duplicates(),
                    forall|l: NodeLabel| #[trigger] r@.contains(l) <==> (before.contains(l)
                        || exists|q: int| 0 <= q < m && node.labels@[q] == l),
                decreases node.labels@.len() - m,
            {
                let l = node.labels[m];
                if !labels_contain(&r, l) {
                    proof {
                        lemma_push_fresh(r@, l);
                    }
                    r.push(l);
                }
                m = m + 1;
            }
            proof {
                assert forall|l: NodeLabel| #[trigger] r@.contains(l) <==> exists|j: int| 0 <= j < i + 1
                    && #[trigger] self.node_map()[self.node_order()[j]].labels.contains(l) by {
                    if r@.contains(l) && !before.contains(l) {
                        let q = choose|q: int| 0 <= q < node.labels@.len() && node.labels@[q] == l;
                        assert(self.node_map()[self.node_order()[i as int]].labels.contains(l));
                    }
                    if exists|j: int| 0 <= j < i + 1 && #[trigger] self.node_map()[self.node_order()[j]].labels.contains(l) {
                        let j = choose|j: int| 0 <= j < i + 1 && #[trigger] self.node_map()[self.node_order()[j]].labels.contains(l);
                        if j == i {
                            let q = choose|q: int| 0 <= q < node.labels@.len() && node.labels@[q] == l;
                        }
                    }
                }
            }
            i = i + 1;
        }
        proof {
            assert forall|l: NodeLabel| #[trigger] r@.contains(l) <==> exists|k: NodeId| self.node_map().contains_key(k)
                && #[trigger] self.node_map()[k].labels.contains(l) by {
                if r@.contains(l) {
                    let j = choose|j: int| 0 <= j < n && #[trigger] self.node_map()[self.node_order()[j]].labels.contains(l);
                    assert(self.node_order().contains(self.node_order()[j]));
                }
                if exists|k: NodeId| self.node_map().contains_key(k) && #[trigger] self.node_map()[k].labels.contains(l) {
                    let k = choose|k: NodeId| self.node_map().contains_key(k) && #[trigger] self.node_map()[k].labels.contains(l);
                    assert(self.node_order().contains(k));
                    let j = choose|j: int| 0 <= j < self.node_order().len() && self.node_order()[j] == k;
                    assert(self.node_map()[self.node_order()[j]].labels.contains(l));
                }
            }
        }
        r
    }
}

/// True when `ls` lists every label that some node of the engine holds, each
/// once, and no other.
pub open spec fn is_label_listing(e: &Engine, ls: Seq<NodeLabel>) -> bool {
    &&& ls.no_duplicates()
    &&& forall|l: NodeLabel| #[trigger] ls.contains(l) <==> exists|k: NodeId| e.node_map().contains_key(k)
        && #[trigger] e.node_map()[k].labels.contains(l)
}

} // verus!
