use vstd::prelude::*;
use crate::engine::flags::NodeFlags;
use crate::engine::graph::{toggled_in, Engine};
use crate::engine::labels::{EdgeLabel, NodeId, NodeLabel};
use crate::engine::node::{clone_labels, ExistingOrNewNodeId, Payload, PayloadView};
use crate::engine::ops::{connection_effect, get_or_add_effect};
use crate::error::{PiError, PiErrorKind, PiResult};

verus! {

/// The ID an operation returns, or the kind of its error.
pub open spec fn id_outcome(r: PiResult<NodeId>) -> Result<NodeId, PiErrorKind> {
    match r {
        Ok(id) => Ok(id),
        Err(e) => Err(e.kind()),
    }
}

/// One way a node with `payload` and `labels` is found or added and then
/// attached to `owner` with the pair of edge labels: `mid` is the graph
/// after the lookup, `d` its result, `r` the ID of the attached node.
pub open spec fn attached_via(e0: Engine, mid: Engine, e1: Engine, d: PiResult<ExistingOrNewNodeId>, owner: NodeId, payload: PayloadView, labels: Seq<NodeLabel>, edges: (EdgeLabel, EdgeLabel), r: Result<NodeId, PiErrorKind>) -> bool {
    &&& mid.wf()
    &&& get_or_add_effect(&e0, &mid, payload, labels, true, None, d)
    &&& match d {
        Err(x) => r == Err::<NodeId, PiErrorKind>(x.kind()) && e1 == mid,
        Ok(n) => r == Ok::<NodeId, PiErrorKind>(n.spec_node_id()) && connection_effect(&mid, &e1, (owner, n.spec_node_id()), edges),
    }
}

/// A node with `payload` and `labels` is found or added and attached to
/// `owner`, with result `r`.
pub open spec fn attached(e0: Engine, e1: Engine, owner: NodeId, payload: PayloadView, labels: Seq<NodeLabel>, edges: (EdgeLabel, EdgeLabel), r: Result<NodeId, PiErrorKind>) -> bool {
    exists|mid: Engine, d: PiResult<ExistingOrNewNodeId>| #[trigger] attached_via(e0, mid, e1, d, owner, payload, labels, edges, r)
}

/// The payloads and labels of a list of nodes to attach.
pub open spec fn additions_view(v: Seq<(Payload, Vec<NodeLabel>)>) -> Seq<(PayloadView, Seq<NodeLabel>)> {
    v.map_values(|a: (Payload, Vec<NodeLabel>)| (a.0@, a.1@))
}

/// Attachment `k` of the list succeeds, from graph `engines[k]` to
/// `engines[k + 1]`.
pub open spec fn attach_ok_at(engines: Seq<Engine>, owner: NodeId, adds: Seq<(PayloadView, Seq<NodeLabel>)>, edges: (EdgeLabel, EdgeLabel), k: int) -> bool {
    exists|id: NodeId| #[trigger] attached(engines[k], engines[k + 1], owner, adds[k].0, adds[k].1, edges, Ok::<NodeId, PiErrorKind>(id))
}

/// The first `n` attachments of the list succeed, through the graphs
/// `engines`.
pub open spec fn attach_prefix(engines: Seq<Engine>, owner: NodeId, adds: Seq<(PayloadView, Seq<NodeLabel>)>, edges: (EdgeLabel, EdgeLabel), n: int) -> bool {
    &&& 0 <= n <= adds.len()
    &&& engines.len() == n + 1
    &&& forall|k: int| 0 <= k < n ==> #[trigger] attach_ok_at(engines, owner, adds, edges, k)
}

/// The nodes of the list are attached to `owner` in order, from graph `e0`
/// to `e1`: all of them, or those before the first that fails.
pub open spec fn all_attached(e0: Engine, e1: Engine, owner: NodeId, adds: Seq<(PayloadView, Seq<NodeLabel>)>, edges: (EdgeLabel, EdgeLabel), r: Result<(), PiErrorKind>) -> bool {
    exists|engines: Seq<Engine>, n: int|
        #[trigger] attach_prefix(engines, owner, adds, edges, n) && engines[0] == e0 && match r {
            Ok(_) => n == adds.len() && engines[n] == e1,
            Err(k) => n < adds.len() && attached(engines[n], e1, owner, adds[n].0, adds[n].1, edges, Err::<NodeId, PiErrorKind>(k)),
        }
}

/// The graph after flags of node `id` are toggled: only that node's flags
/// and time of writing change, when it is present.
pub open spec fn flag_toggled(e0: Engine, e1: Engine, id: NodeId, f: NodeFlags) -> bool {
    &&& e1.node_map() == toggled_in(e0.node_map(), id, f, e1.node_map()[id].written_at)
    &&& e1.node_order() == e0.node_order()
    &&& e1.edge_map() == e0.edge_map()
    &&& e1.edge_order() == e0.edge_order()
    &&& e1.next_node_id() == e0.next_node_id()
    &&& e1.open_fetch_requests() == e0.open_fetch_requests()
    &&& e1.project_id() == e0.project_id()
    &&& e1.outbox() == e0.outbox()
}

/// Finds or adds a node and attaches it to `owner` with the pair of edge
/// labels. Returns the ID of the node.
pub fn attach_node(engine: &mut Engine, owner: NodeId, payload: Payload, labels: Vec<NodeLabel>, edges: (EdgeLabel, EdgeLabel)) -> (r: PiResult<NodeId>)
    requires
        old(engine).wf(),
    ensures
        final(engine).wf(),
        attached(*old(engine), *final(engine), owner, payload@, labels@, edges, id_outcome(r)),
{
    let ghost e0 = *engine;
    let ghost pv = payload@;
    let ghost lv = labels@;
    let d = engine.get_or_add_node(payload, labels, true, None);
    let ghost mid = *engine;
    let ghost dd = d;
    match d {
        Ok(n) => {
            let id = n.get_node_id();
            engine.add_connection((owner, id), edges);
            assert(attached_via(e0, mid, *engine, dd, owner, pv, lv, edges, Ok(id)));
            Ok(id)
        },
        Err(e) => {
            assert(attached_via(e0, mid, *engine, dd, owner, pv, lv, edges, Err(e.kind())));
            Err(e)
        },
    }
}

/// Finds or adds each node of the list in order and attaches it to `owner`,
/// stopping at the first failure.
pub fn attach_all(engine: &mut Engine, owner: NodeId, adds: &Vec<(Payload, Vec<NodeLabel>)>, edges: (EdgeLabel, EdgeLabel)) -> (r: PiResult<()>)
    requires
        old(engine).wf(),
    ensures
        final(engine).wf(),
        all_attached(*old(engine), *final(engine), owner, additions_view(adds@), edges, match r {
            Ok(_) => Ok(()),
            Err(e) => Err(e.kind()),
        }),
{
    let ghost av = additions_view(adds@);
    let ghost mut engines: Seq<Engine> = seq![*engine];
    let mut i: usize = 0;
    while i < adds.len()
        invariant
            engine.wf(),
            av == additions_view(adds@),
            i <= adds@.len(),
            attach_prefix(engines, owner, av, edges, i as int),
            engines[0] == *old(engine),
            engines[i as int] == *engine,
        decreases adds@.len() - i,
    {
        let ghost prev = engines;
        let payload = adds[i].0.clone();
        let labels = clone_labels(&adds[i].1);
        assert(av[i as int] == (adds@[i as int].0@, adds@[i as int].1@));
        let ghost e_before = *engine;
        let ghost pv = payload@;
        let ghost lv = labels@;
        let r = attach_node(engine, owner, payload, labels, edges);
        match r {
            Err(e) => {
                assert(attach_prefix(engines, owner, av, edges, i as int));
                return Err(e);
            },
            Ok(id) => {
                proof {
                    engines = engines.push(*engine);
                    assert(engines[i as int] == e_before);
                    assert(engines[i + 1] == *engine);
                    assert(pv == av[i as int].0 && lv == av[i as int].1);
                    assert(attached(engines[i as int], engines[i + 1], owner, av[i as int].0, av[i as int].1, edges, Ok::<NodeId, PiErrorKind>(id)));
                    assert(attach_ok_at(engines, owner, av, edges, i as int));
                    assert forall|k: int| 0 <= k < i + 1 implies #[trigger] attach_ok_at(engines, owner, av, edges, k) by {
                        if k < i {
                            assert(attach_ok_at(prev, owner, av, edges, k));
                            assert(engines[k] == prev[k]);
                            assert(engines[k + 1] == prev[k + 1]);
                            let w = choose|w: NodeId| #[trigger] attached(prev[k], prev[k + 1], owner, av[k].0, av[k].1, edges, Ok::<NodeId, PiErrorKind>(w));
                            assert(attached(engines[k], engines[k + 1], owner, av[k].0, av[k].1, edges, Ok::<NodeId, PiErrorKind>(w)));
                        }
                    }
                }
            },
        }
        i = i + 1;
    }
    assert(attach_prefix(engines, owner, av, edges, i as int));
    Ok(())
}

} // verus!

verus! {

use crate::engine::flags::IS_PROCESSED_BIT;

/// One way a node is attached to `id` and `id` is then marked as processed:
/// `mid` is the graph after the attachment, `ra` its outcome.
pub open spec fn attached_then_processed_via(e0: Engine, mid: Engine, e1: Engine, ra: Result<NodeId, PiErrorKind>, id: NodeId, payload: PayloadView, labels: Seq<NodeLabel>, edges: (EdgeLabel, EdgeLabel), r: Result<(), PiErrorKind>) -> bool {
    &&& attached(e0, mid, id, payload, labels, edges, ra)
    &&& match ra {
        Err(k) => r == Err::<(), PiErrorKind>(k) && e1 == mid,
        Ok(_) => r is Ok && flag_toggled(mid, e1, id, NodeFlags { bits: IS_PROCESSED_BIT }),
    }
}

/// A node is attached to `id`, then `id` is marked as processed; a failure
/// to attach stops before the mark.
pub open spec fn attached_then_processed(e0: Engine, e1: Engine, id: NodeId, payload: PayloadView, labels: Seq<NodeLabel>, edges: (EdgeLabel, EdgeLabel), r: Result<(), PiErrorKind>) -> bool {
    exists|mid: Engine, ra: Result<NodeId, PiErrorKind>| #[trigger] attached_then_processed_via(e0, mid, e1, ra, id, payload, labels, edges, r)
}

/// Attaches a node to `id`, then marks `id` as processed.
pub fn attach_then_mark_processed(engine: &mut Engine, id: NodeId, payload: Payload, labels: Vec<NodeLabel>, edges: (EdgeLabel, EdgeLabel)) -> (r: PiResult<()>)
    requires
        old(engine).wf(),
    ensures
        final(engine).wf(),
        attached_then_processed(*old(engine), *final(engine), id, payload@, labels@, edges, match r {
            Ok(_) => Ok(()),
            Err(e) => Err(e.kind()),
        }),
{
    let ghost e0 = *engine;
    let ghost pv = payload@;
    let ghost lv = labels@;
    let ra = attach_node(engine, id, payload, labels, edges);
    let ghost mid = *engine;
    let ghost rav = id_outcome(ra);
    match ra {
        Err(e) => {
            assert(attached_then_processed_via(e0, mid, *engine, rav, id, pv, lv, edges, Err(e.kind())));
            Err(e)
        },
        Ok(_) => {
            engine.toggle_flag(&id, NodeFlags::is_processed());
            assert(attached_then_processed_via(e0, mid, *engine, rav, id, pv, lv, edges, Ok(())));
            Ok(())
        },
    }
}

} // verus!

verus! {

use crate::engine::graph::with_payload;

/// The graph after node `id` is given payload `p`: only that node's payload
/// and time of writing change, when it is present.
pub open spec fn payload_written(e0: Engine, e1: Engine, id: NodeId, p: PayloadView) -> bool {
    &&& e0.node_map().contains_key(id) ==> e1.node_map() == e0.node_map().insert(
        id,
        with_payload(e0.node_map()[id], p, e1.node_map()[id].written_at),
    )
    &&& !e0.node_map().contains_key(id) ==> e1.node_map() == e0.node_map()
    &&& e1.node_order() == e0.node_order()
    &&& e1.edge_map() == e0.edge_map()
    &&& e1.edge_order() == e0.edge_order()
    &&& e1.next_node_id() == e0.next_node_id()
    &&& e1.open_fetch_requests() == e0.open_fetch_requests()
    &&& e1.project_id() == e0.project_id()
    &&& e1.outbox() == e0.outbox()
}

} // verus!
