use vstd::prelude::*;

verus! {

/// The conclusion to the objective that an LLM drew from the insights found.
#[derive(Debug)]
pub struct Conclusion {
    pub conclusion_to_objective_based_on_insights: Option<String>,
}

impl Clone for Conclusion {
    fn clone(&self) -> (r: Self)
        ensures
            r == *self,
    {
        Conclusion {
            conclusion_to_objective_based_on_insights: self.conclusion_to_objective_based_on_insights.clone(),
        }
    }
}

} // verus!

verus! {

use crate::engine::attach::{flag_toggled, payload_written};
use crate::engine::flags::{NodeFlags, IS_PROCESSED_BIT};
use crate::engine::graph::{labelled_ids, lemma_ids_with_label, Engine};
use crate::engine::labels::{NodeId, NodeLabel};
use crate::engine::node::{NodeItem, Payload, PayloadView};
use crate::engine::reports::strings_contain;
use crate::entity::pixlie::{disable_tools_by_labels, is_tool_label, tools_switched_off};
use crate::entity::web::html::{trim, trimmed};
use crate::error::{PiError, PiErrorKind, PiResult};
use crate::fetch::ReplyData;
use crate::services::anthropic::{prompt_sent, Anthropic};
use crate::text::{join_strings, joined, string_views};

/// The least number of distinct insights before a conclusion is asked for.
pub const MINIMUM_INSIGHTS_COUNT: usize = 3;

/// The text of the objective: that of the first objective node, when it
/// holds text that is not blank.
pub open spec fn objective_text(e: Engine) -> Result<Seq<char>, PiErrorKind> {
    let ids = labelled_ids(&e, NodeLabel::Objective);
    if ids.len() == 0 || !e.node_map().contains_key(ids[0]) {
        Err(PiErrorKind::InternalError)
    } else {
        match e.node_map()[ids[0]].payload {
            PayloadView::Text(t) => if trimmed(t@).len() > 0 {
                Ok(t@)
            } else {
                Err(PiErrorKind::InternalError)
            },
            _ => Err(PiErrorKind::InternalError),
        }
    }
}

/// The insight that a node gives: that of a relevant classification, when
/// it is not blank.
pub open spec fn insight_of(e: Engine, id: NodeId) -> Option<Seq<char>> {
    if e.node_map().contains_key(id) {
        match e.node_map()[id].payload {
            PayloadView::Classification(c) => if c.is_relevant {
                match c.insight_if_classified_as_relevant {
                    Some(x) => if trimmed(x@).len() > 0 {
                        Some(x@)
                    } else {
                        None
                    },
                    None => None,
                }
            } else {
                None
            },
            _ => None,
        }
    } else {
        None
    }
}

/// The distinct insights that the nodes give, in the order they first
/// appear.
pub open spec fn insights_of(e: Engine, ids: Seq<NodeId>) -> Seq<Seq<char>>
    decreases ids.len(),
{
    if ids.len() == 0 {
        Seq::empty()
    } else {
        let rest = insights_of(e, ids.drop_last());
        match insight_of(e, ids.last()) {
            Some(x) => if rest.contains(x) {
                rest
            } else {
                rest.push(x)
            },
            None => rest,
        }
    }
}

/// The distinct insights of the classifications in the graph.
pub open spec fn insights(e: Engine) -> Seq<Seq<char>> {
    insights_of(e, labelled_ids(&e, NodeLabel::Classification))
}

/// The schema of a conclusion.
pub open spec fn conclusion_schema() -> Seq<char> {
    "type Conclusion = { conclusion_to_objective_based_on_insights: string | null, };"@
}

/// The prompt that asks the model for a conclusion to the objective from the
/// insights found; there must be at least three.
pub open spec fn conclusion_prompt(e: Engine) -> Result<Seq<char>, PiErrorKind> {
    match objective_text(e) {
        Err(k) => Err(k),
        Ok(o) => if insights(e).len() < MINIMUM_INSIGHTS_COUNT {
            Err(PiErrorKind::InternalError)
        } else {
            Ok(
                "Objective: "@ + o + "\n\nInsights: "@ + joined(insights(e), "\n\n"@)
                    + "\n\nUsing the following schema, respond in JSON format:\n\n"@ + conclusion_schema() + "\n```"@,
            )
        },
    }
}

/// True when the conclusion holds text that is not blank.
pub open spec fn is_reached(c: Conclusion) -> bool {
    c.conclusion_to_objective_based_on_insights matches Some(x) && trimmed(x@).len() > 0
}

/// One way a conclusion is recorded: the node takes it as payload (`m1`),
/// the crawler and the classifier are switched off (`m2`), and the node is
/// marked as processed.
pub open spec fn conclusion_recorded_via(e0: Engine, m1: Engine, m2: Engine, e1: Engine, id: NodeId, c: Conclusion) -> bool {
    &&& payload_written(e0, m1, id, PayloadView::Conclusion(c))
    &&& tools_switched_off(&m1, &m2, seq![NodeLabel::CrawlerSettings, NodeLabel::ClassifierSettings])
    &&& flag_toggled(m2, e1, id, NodeFlags { bits: IS_PROCESSED_BIT })
}

/// A conclusion is recorded in node `id`.
pub open spec fn conclusion_recorded(e0: Engine, e1: Engine, id: NodeId, c: Conclusion) -> bool {
    exists|m1: Engine, m2: Engine| #[trigger] conclusion_recorded_via(e0, m1, m2, e1, id, c)
}

impl Conclusion {
    /// The text of the objective.
    pub fn get_objective(engine: &Engine) -> (r: PiResult<String>)
        requires
            engine.wf(),
        ensures
            match r {
                Ok(t) => objective_text(*engine) == Ok::<Seq<char>, PiErrorKind>(t@),
                Err(e) => objective_text(*engine) == Err::<Seq<char>, PiErrorKind>(e.kind()),
            },
    {
        let ids = engine.get_node_ids_with_label(&NodeLabel::Objective);
        if ids.len() == 0 {
            return Err(PiError::InternalError(String::from_str("No Objective nodes found in engine")));
        }
        match engine.get_node_by_id(&ids[0]) {
            None => Err(PiError::InternalError(String::from_str("Failed to retrieve Objective node"))),
            Some(node) => match &node.payload {
                Payload::Text(t) => {
                    let tt = trim(t.as_str());
                    if tt.unicode_len() > 0 {
                        Ok(t.clone())
                    } else {
                        Err(PiError::InternalError(String::from_str("Objective node contains empty text")))
                    }
                },
                _ => Err(PiError::InternalError(String::from_str("Objective node payload is not text type"))),
            },
        }
    }

    /// The distinct insights found, a blank line between each two, and their
    /// number; an error when there are fewer than three.
    pub fn get_insights(engine: &Engine) -> (r: PiResult<(String, usize)>)
        requires
            engine.wf(),
        ensures
            match r {
                Ok((text, n)) => n == insights(*engine).len() && n >= MINIMUM_INSIGHTS_COUNT
                    && text@ == joined(insights(*engine), "\n\n"@),
                Err(e) => e.kind() == PiErrorKind::InternalError && insights(*engine).len() < MINIMUM_INSIGHTS_COUNT,
            },
    {
        let ids = engine.get_node_ids_with_label(&NodeLabel::Classification);
        let ghost iv = ids@;
        let mut found: Vec<String> = Vec::new();
        let mut i: usize = 0;
        assert(iv.take(0) =~= Seq::<NodeId>::empty());
        assert(string_views(found@) =~= Seq::<Seq<char>>::empty());
        while i < ids.len()
            invariant
                engine.wf(),
                iv == ids@,
                iv == labelled_ids(engine, NodeLabel::Classification),
                i <= iv.len(),
                string_views(found@) == insights_of(*engine, iv.take(i as int)),
            decreases iv.len() - i,
        {
            let id = ids[i];
            assert(iv.take(i + 1).drop_last() =~= iv.take(i as int));
            assert(iv.take(i + 1).last() == id);
            match engine.get_node_by_id(&id) {
                Some(node) => match &node.payload {
                    Payload::Classification(c) => {
                        if c.is_relevant {
                            match &c.insight_if_classified_as_relevant {
                                Some(x) => {
                                    let tx = trim(x.as_str());
                                    if tx.unicode_len() > 0 && !strings_contain(&found, x.as_str()) {
                                        let ghost before = found@;
                                        found.push(x.clone());
                                        assert(string_views(found@) =~= string_views(before).push(x@));
                                    }
                                },
                                None => {},
                            }
                        }
                    },
                    _ => {},
                },
                None => {},
            }
            i = i + 1;
        }
        assert(iv.take(iv.len() as int) =~= iv);
        let n = found.len();
        if n >= MINIMUM_INSIGHTS_COUNT {
            Ok((join_strings(&found, "\n\n"), n))
        } else {
            Err(PiError::InternalError(String::from_str("Insufficient insights found")))
        }
    }

    /// The prompt that asks the model for a conclusion to the objective.
    pub fn get_llm_prompt(engine: &Engine) -> (r: PiResult<String>)
        requires
            engine.wf(),
        ensures
            match r {
                Ok(p) => conclusion_prompt(*engine) == Ok::<Seq<char>, PiErrorKind>(p@),
                Err(e) => conclusion_prompt(*engine) == Err::<Seq<char>, PiErrorKind>(e.kind()),
            },
    {
        let objective = match Self::get_objective(engine) {
            Ok(o) => o,
            Err(e) => {
                return Err(e);
            },
        };
        let (insights_text, _) = match Self::get_insights(engine) {
            Ok(x) => x,
            Err(e) => {
                return Err(e);
            },
        };
        let mut s = String::from_str("Objective: ");
        s.append(objective.as_str());
        s.append("\n\nInsights: ");
        s.append(insights_text.as_str());
        s.append("\n\nUsing the following schema, respond in JSON format:\n\n");
        s.append("type Conclusion = { conclusion_to_objective_based_on_insights: string | null, };");
        s.append("\n```");
        Ok(s)
    }

    /// Asks the model for a conclusion to the objective, as the given node.
    pub fn send_llm_request(node: &NodeItem, engine: &mut Engine, api_key: Option<String>, model: &str) -> (r: PiResult<()>)
        requires
            old(engine).wf(),
        ensures
            final(engine).wf(),
            match conclusion_prompt(*old(engine)) {
                Err(k) => r matches Err(x) && x.kind() == k && *final(engine) == *old(engine),
                Ok(p) => prompt_sent(*old(engine), *final(engine), node.id, api_key, model@, p, r),
            },
    {
        let prompt = match Self::get_llm_prompt(engine) {
            Ok(p) => p,
            Err(e) => {
                return Err(e);
            },
        };
        Anthropic::send_prompt(engine, node.id, prompt.as_str(), api_key, model)
    }

    /// Records a conclusion the model reached in the node, switches off the
    /// crawler and the classifier, and marks the node as processed; a
    /// conclusion without text is ignored.
    pub fn apply_conclusion(node: &NodeItem, engine: &mut Engine, conclusion: Conclusion) -> (r: PiResult<()>)
        requires
            old(engine).wf(),
        ensures
            final(engine).wf(),
            r is Ok,
            is_reached(conclusion) ==> conclusion_recorded(*old(engine), *final(engine), node.id, conclusion),
            !is_reached(conclusion) ==> *final(engine) == *old(engine),
    {
        let reached = match &conclusion.conclusion_to_objective_based_on_insights {
            Some(x) => {
                let tx = trim(x.as_str());
                tx.unicode_len() > 0
            },
            None => false,
        };
        if !reached {
            return Ok(());
        }
        let ghost e0 = *engine;
        let ghost c = conclusion;
        engine.update_node(&node.id, Payload::Conclusion(conclusion));
        let ghost m1 = *engine;
        let mut labels = Vec::new();
        labels.push(NodeLabel::CrawlerSettings);
        labels.push(NodeLabel::ClassifierSettings);
        assert(labels@ =~= seq![NodeLabel::CrawlerSettings, NodeLabel::ClassifierSettings]);
        let d = disable_tools_by_labels(engine, labels);
        match d {
            Ok(()) => {},
            Err(_) => {
                assert(is_tool_label(seq![NodeLabel::CrawlerSettings, NodeLabel::ClassifierSettings][0]));
                assert(is_tool_label(seq![NodeLabel::CrawlerSettings, NodeLabel::ClassifierSettings][1]));
                assert(false);
            },
        }
        let ghost m2 = *engine;
        engine.toggle_flag(&node.id, NodeFlags::is_processed());
        assert(conclusion_recorded_via(e0, m1, m2, *engine, node.id, c));
        Ok(())
    }

    /// Processes a conclusion node: asks the model once there are at least
    /// three insights (and does nothing before), records the conclusion when
    /// it has answered, and does nothing when the request failed. A reply
    /// that could not be read is returned as the error.
    pub fn process(node: &NodeItem, engine: &mut Engine, data_from_previous_request: Option<ReplyData<Conclusion>>, api_key: Option<String>, model: &str) -> (r: PiResult<()>)
        requires
            old(engine).wf(),
        ensures
            final(engine).wf(),
            match data_from_previous_request {
                None => if insights(*old(engine)).len() >= MINIMUM_INSIGHTS_COUNT {
                    match conclusion_prompt(*old(engine)) {
                        Err(k) => r matches Err(x) && x.kind() == k && *final(engine) == *old(engine),
                        Ok(p) => prompt_sent(*old(engine), *final(engine), node.id, api_key, model@, p, r),
                    }
                } else {
                    r is Ok && *final(engine) == *old(engine)
                },
                Some(ReplyData::Error(_)) => r is Ok && *final(engine) == *old(engine),
                Some(ReplyData::Response(Err(e))) => r == Err::<(), PiError>(e) && *final(engine) == *old(engine),
                Some(ReplyData::Response(Ok(c))) => r is Ok && (is_reached(c) ==> conclusion_recorded(
                    *old(engine),
                    *final(engine),
                    node.id,
                    c,
                )) && (!is_reached(c) ==> *final(engine) == *old(engine)),
            },
    {
        match data_from_previous_request {
            None => match Self::get_insights(engine) {
                Ok((_, count)) => {
                    if count >= MINIMUM_INSIGHTS_COUNT {
                        Self::send_llm_request(node, engine, api_key, model)
                    } else {
                        Ok(())
                    }
                },
                Err(_) => Ok(()),
            },
            Some(ReplyData::Error(_)) => Ok(()),
            Some(ReplyData::Response(Err(e))) => Err(e),
            Some(ReplyData::Response(Ok(c))) => Self::apply_conclusion(node, engine, c),
        }
    }
}

} // verus!
