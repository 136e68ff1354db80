use vstd::prelude::*;
use crate::engine::graph::Engine;
use crate::engine::labels::{NodeId, NodeLabel};
use crate::engine::node::{ExistingOrNewNodeId, Payload, PayloadView};
use crate::engine::ops::get_or_add_effect;
use crate::error::{PiError, PiResult};

verus! {

/// A piece of text, stored in a node of its own.
pub struct Text;

impl Text {
    /// Finds or adds a text node with the given labels and returns its ID.
    pub fn add(engine: &mut Engine, text: &str, labels: Vec<NodeLabel>) -> (r: PiResult<NodeId>)
        requires
            old(engine).wf(),
        ensures
            final(engine).wf(),
            exists|s: String, d: PiResult<ExistingOrNewNodeId>| {
                &&& s@ == text@
                &&& #[trigger] get_or_add_effect(old(engine), final(engine), PayloadView::Text(s), labels@, true, None, d)
                &&& match d {
                    Ok(n) => r == Ok::<NodeId, PiError>(n.spec_node_id()),
                    Err(e) => r == Err::<NodeId, PiError>(e),
                }
            },
    {
        let s = String::from_str(text);
        let ghost sv = s;
        let ghost lv = labels@;
        let d = engine.get_or_add_node(Payload::Text(s), labels, true, None);
        let ghost dd = d;
        match d {
            Ok(n) => Ok(n.get_node_id()),
            Err(e) => Err(e),
        }
    }
}

} // verus!
