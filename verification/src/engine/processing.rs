use vstd::prelude::*;
use crate::engine::flags::{NodeFlags, HAD_ERROR_BIT, IS_BLOCKED_BIT, IS_PROCESSED_BIT, IS_REQUESTING_BIT};
use crate::engine::graph::Engine;
use crate::engine::labels::{NodeId, NodeLabel};
use crate::engine::node::{labels_contain, NodeItemView};

verus! {

/// At most this many nodes of all processable kinds are picked in one round;
/// domains, objectives, web pages and web searches are picked beyond it.
pub const MAX_NODES_PER_ROUND: u64 = 100;

/// Milliseconds after which a node that had an error is tried again.
pub const RETRY_AFTER_ERROR_MILLIS: i64 = 60000;

/// True when a node has a flag that keeps it from processing.
pub open spec fn has_skip_flag(n: NodeItemView) -> bool {
    n.flags.has(NodeFlags { bits: IS_PROCESSED_BIT }) || n.flags.has(NodeFlags { bits: IS_REQUESTING_BIT })
        || n.flags.has(NodeFlags { bits: IS_BLOCKED_BIT })
}

/// True when an objective node is processed and has `Objective` as its first
/// label: the processing status that web pages and web searches depend on.
pub open spec fn objective_processed(e: &Engine) -> bool {
    exists|k: NodeId| #[trigger] e.node_map().contains_key(k) && {
        let n = e.node_map()[k];
        n.labels.contains(NodeLabel::Objective) && n.flags.has(NodeFlags { bits: IS_PROCESSED_BIT })
            && n.labels.len() > 0 && n.labels[0] == NodeLabel::Objective
    }
}

/// True when a node waits on its dependencies: it is a web page or a web
/// search and the objective is processed.
pub open spec fn held_by_dependency(n: NodeItemView, objective_done: bool) -> bool {
    (n.labels.contains(NodeLabel::WebPage) || n.labels.contains(NodeLabel::WebSearch)) && objective_done
}

pub open spec fn has_any_processable_label(n: NodeItemView) -> bool {
    n.labels.contains(NodeLabel::DomainName) || n.labels.contains(NodeLabel::Link)
        || n.labels.contains(NodeLabel::Objective) || n.labels.contains(NodeLabel::WebPage)
        || n.labels.contains(NodeLabel::WebSearch)
}

pub open spec fn has_unlimited_label(n: NodeItemView) -> bool {
    n.labels.contains(NodeLabel::DomainName) || n.labels.contains(NodeLabel::Objective)
        || n.labels.contains(NodeLabel::WebPage) || n.labels.contains(NodeLabel::WebSearch)
}

/// The nodes picked for processing among `ids`, in the order of `ids`, with
/// the number of them counted against the limit of a round.
pub open spec fn pick(ids: Seq<NodeId>, nodes: Map<NodeId, NodeItemView>, objective_done: bool, now: i64) -> (Seq<NodeId>, nat)
    decreases ids.len(),
{
    if ids.len() == 0 {
        (Seq::empty(), 0)
    } else {
        let (prev, count) = pick(ids.drop_last(), nodes, objective_done, now);
        let x = ids.last();
        let n = nodes[x];
        if has_skip_flag(n) || held_by_dependency(n, objective_done) {
            (prev, count)
        } else if n.flags.has(NodeFlags { bits: HAD_ERROR_BIT }) {
            if now - n.written_at > RETRY_AFTER_ERROR_MILLIS {
                (prev.push(x), count)
            } else {
                (prev, count)
            }
        } else if count < MAX_NODES_PER_ROUND && has_any_processable_label(n) {
            (prev.push(x), count + 1)
        } else if has_unlimited_label(n) {
            (prev.push(x), count)
        } else {
            (prev, count)
        }
    }
}

/// True when the sequence is strictly increasing.
pub open spec fn strictly_sorted(s: Seq<NodeId>) -> bool {
    forall|i: int, j: int| 0 <= i < j < s.len() ==> s[i] < s[j]
}

/// The picked nodes, each once, by ascending ID.
pub open spec fn sorted_pick(e: &Engine, now: i64, r: Seq<NodeId>) -> bool {
    &&& strictly_sorted(r)
    &&& forall|x: NodeId| #[trigger] r.contains(x) <==> pick(e.node_order(), e.node_map(), objective_processed(e), now).0.contains(x)
}

/// Inserts an ID into a strictly increasing vector that lacks it, keeping
/// the vector strictly increasing.
pub fn insert_sorted(v: &mut Vec<NodeId>, x: NodeId)
    requires
        strictly_sorted(old(v)@),
        !old(v)@.contains(x),
    ensures
        strictly_sorted(final(v)@),
        forall|y: NodeId| #[trigger] final(v)@.contains(y) <==> (old(v)@.contains(y) || y == x),
{
    let mut i: usize = 0;
    while i < v.len() && v[i] < x
        invariant
            i <= v@.len(),
            v@ == old(v)@,
            forall|j: int| 0 <= j < i ==> v@[j] < x,
        decreases v@.len() - i,
    {
        i = i + 1;
    }
    let ghost o = v@;
    v.insert(i, x);
    assert(v@ == o.insert(i as int, x));
    assert forall|a: int, b: int| 0 <= a < b < v@.len() implies v@[a] < v@[b] by {
        if i < o.len() {
            assert(o[i as int] != x) by {
                assert(o.contains(o[i as int]));
            }
        }
    }
    assert forall|y: NodeId| #[trigger] v@.contains(y) <==> (o.contains(y) || y == x) by {
        if v@.contains(y) {
            let j = choose|j: int| 0 <= j < v@.len() && v@[j] == y;
            if j < i {
                assert(o[j] == y);
            } else if j > i {
                assert(o[j - 1] == y);
            }
        }
        if o.contains(y) {
            let j = choose|j: int| 0 <= j < o.len() && o[j] == y;
            if j < i {
                assert(v@[j] == y);
            } else {
                assert(v@[j + 1] == y);
            }
        }
        if y == x {
            assert(v@[i as int] == y);
        }
    }
}

impl Engine {
    /// True when the objective is processed (see `objective_processed`).
    fn objective_is_processed(&self) -> (r: bool)
        requires
            self.wf(),
        ensures
            r == objective_processed(self),
    {
        proof {
            self.lemma_wf();
        }
        let ids = self.get_node_ids_with_label(&NodeLabel::Objective);
        proof {
            crate::engine::graph::lemma_ids_with_label(self.node_order(), self.node_map(), NodeLabel::Objective);
        }
        let mut i: usize = 0;
        while i < ids.len()
            invariant
                self.wf(),
                i <= ids@.len(),
                ids@ == crate::engine::graph::labelled_ids(self, NodeLabel::Objective),
                forall|x: NodeId| #[trigger] ids@.contains(x) <==> self.node_order().contains(x)
                    && self.node_map()[x].labels.contains(NodeLabel::Objective),
                forall|j: int| 0 <= j < i ==> {
                    let n = self.node_map()[#[trigger] ids@[j]];
                    !(n.flags.has(NodeFlags { bits: IS_PROCESSED_BIT }) && n.labels.len() > 0
                        && n.labels[0] == NodeLabel::Objective)
                },
            decreases ids@.len() - i,
        {
            proof {
                self.lemma_wf();
            }
            let id = ids[i];
            assert(ids@.contains(id));
            let node = self.get_node_by_id(&id).unwrap();
            if node.flags.contains(NodeFlags::is_processed()) && node.labels.len() > 0
                && node.labels[0] == NodeLabel::Objective {
                assert(self.node_map().contains_key(id));
                return true;
            }
            i = i + 1;
        }
        assert forall|k: NodeId| #[trigger] self.node_map().contains_key(k) implies !{
            let n = self.node_map()[k];
            n.labels.contains(NodeLabel::Objective) && n.flags.has(NodeFlags { bits: IS_PROCESSED_BIT })
                && n.labels.len() > 0 && n.labels[0] == NodeLabel::Objective
        } by {
            if self.node_map()[k].labels.contains(NodeLabel::Objective) {
                assert(ids@.contains(k));
                let j = choose|j: int| 0 <= j < ids@.len() && ids@[j] == k;
            }
        }
        false
    }

    /// The IDs of the nodes to process in this round, by ascending ID. Nodes
    /// with an error are tried again once `now` is more than a minute past
    /// their last write.
    pub fn select_nodes_to_process(&self, now: i64) -> (r: Vec<NodeId>)
        requires
            self.wf(),
        ensures
            sorted_pick(self, now, r@),
    {
        proof {
            self.lemma_wf();
        }
        let objective_done = self.objective_is_processed();
        let ghost order = self.node_order();
        let ghost nodes = self.node_map();
        let mut picked: Vec<NodeId> = Vec::new();
        let mut sorted: Vec<NodeId> = Vec::new();
        let mut count: u64 = 0;
        let n = self.node_count();
        let mut i: usize = 0;
        assert(order.take(0) =~= Seq::<NodeId>::empty());
        while i < n
            invariant
                self.wf(),
                order == self.node_order(),
                nodes == self.node_map(),
                n == order.len(),
                i <= n,
                objective_done == objective_processed(self),
                (picked@, count as nat) == pick(order.take(i as int), nodes, objective_done, now),
                strictly_sorted(sorted@),
                forall|x: NodeId| #[trigger] sorted@.contains(x) <==> picked@.contains(x),
                forall|x: NodeId| #[trigger] picked@.contains(x) ==> order.take(i as int).contains(x),
                count <= i,
            decreases n - i,
        {
            proof {
                self.lemma_wf();
            }
            let id = self.node_id_at(i);
            let ghost prefix = order.take(i as int);
            assert(order.take(i as int + 1).drop_last() =~= prefix);
            assert(order.take(i as int + 1).last() == id);
            assert(order.contains(id));
            let node = self.get_node_by_id(&id).unwrap();
            let skip = node.flags.contains(NodeFlags::is_processed()) || node.flags.contains(NodeFlags::is_requesting())
                || node.flags.contains(NodeFlags::is_blocked());
            let web = labels_contain(&node.labels, NodeLabel::WebPage) || labels_contain(&node.labels, NodeLabel::WebSearch);
            let domain = labels_contain(&node.labels, NodeLabel::DomainName);
            let link = labels_contain(&node.labels, NodeLabel::Link);
            let objective = labels_contain(&node.labels, NodeLabel::Objective);
            let take = if skip || (web && objective_done) {
                false
            } else if node.flags.contains(NodeFlags::had_error()) {
                now as i128 - node.written_at as i128 > RETRY_AFTER_ERROR_MILLIS as i128
            } else if count < MAX_NODES_PER_ROUND && (domain || link || objective || web) {
                count = count + 1;
                true
            } else {
                domain || objective || web
            };
            let ghost old_p = picked@;
            if take {
                proof {
                    if picked@.contains(id) {
                        assert(prefix.contains(id));
                        let a = choose|a: int| 0 <= a < prefix.len() && prefix[a] == id;
                        assert(order[a] == order[i as int]);
                    }
                }
                picked.push(id);
                insert_sorted(&mut sorted, id);
            }
            proof {
                assert forall|x: NodeId| #[trigger] picked@.contains(x) implies order.take(i as int + 1).contains(x) by {
                    if take {
                        lemma_push_contains(old_p, id, x);
                    }
                    if x != id {
                        assert(old_p.contains(x));
                        assert(prefix.contains(x));
                        let a = choose|a: int| 0 <= a < prefix.len() && prefix[a] == x;
                        assert(order.take(i as int + 1)[a] == x);
                    } else {
                        assert(order.take(i as int + 1)[i as int] == x);
                    }
                }
                assert forall|x: NodeId| #[trigger] sorted@.contains(x) <==> picked@.contains(x) by {
                    if take {
                        lemma_push_contains(old_p, id, x);
                    }
                }
            }
            i = i + 1;
        }
        assert(order.take(n as int) =~= order);
        sorted
    }
}

pub proof fn lemma_push_contains(s: Seq<NodeId>, x: NodeId, y: NodeId)
    ensures
        s.push(x).contains(y) <==> (s.contains(y) || y == x),
{
    if s.push(x).contains(y) {
        let j = choose|j: int| 0 <= j < s.push(x).len() && s.push(x)[j] == y;
        if j < s.len() {
            assert(s[j] == y);
        }
    }
    if s.contains(y) {
        let j = choose|j: int| 0 <= j < s.len() && s[j] == y;
        assert(s.push(x)[j] == y);
    }
    if y == x {
        assert(s.push(x)[s.len() as int] == y);
    }
}

} // verus!
