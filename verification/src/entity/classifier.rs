use vstd::prelude::*;

verus! {

/// Settings of the classifier: the prompt that asks whether content is relevant.
#[derive(Debug)]
pub struct ClassifierSettings {
    pub is_enabled: crate::entity::pixlie::ToolEnabled,
    pub prompt_to_classify_content_as_relevant_to_objective_or_not: Option<String>,
}

impl Clone for ClassifierSettings {
    fn clone(&self) -> (r: Self)
        ensures
            r == *self,
    {
        ClassifierSettings {
            is_enabled: self.is_enabled,
            prompt_to_classify_content_as_relevant_to_objective_or_not: self.prompt_to_classify_content_as_relevant_to_objective_or_not.clone(),
        }
    }
}

/// How a piece of content was classified.
#[derive(Debug)]
pub struct Classification {
    pub is_relevant: bool,
    pub reason: String,
    pub insight_if_classified_as_relevant: Option<String>,
}

impl Clone for Classification {
    fn clone(&self) -> (r: Self)
        ensures
            r == *self,
    {
        Classification {
            is_relevant: self.is_relevant,
            reason: self.reason.clone(),
            insight_if_classified_as_relevant: self.insight_if_classified_as_relevant.clone(),
        }
    }
}

} // verus!

verus! {

use crate::engine::attach::{attach_then_mark_processed, attached_then_processed};
use crate::engine::graph::{connected_ids, labelled_ids, lemma_ids_with_label, Engine};
use crate::engine::labels::{CommonEdgeLabels, NodeId, NodeLabel};
use crate::engine::node::{labels_contain, NodeItem, Payload, PayloadView};
use crate::entity::web::scraper::unit_outcome;
use crate::error::{PiError, PiErrorKind, PiResult};
use crate::fetch::ReplyData;
use crate::services::anthropic::{prompt_sent, Anthropic};
use crate::text::{joined, join_strings, second_piece, split_second, string_views};

/// Decides with the help of a model whether the content of a page is
/// relevant to the objective.
pub struct Classifier;

/// True when the node is a part of a page that holds text.
pub open spec fn is_text_part(e: Engine, id: NodeId) -> bool {
    &&& e.node_map().contains_key(id)
    &&& e.node_map()[id].payload is Text
    &&& e.node_map()[id].labels.contains(NodeLabel::Partial)
}

/// The texts of the parts among the nodes, in order.
pub open spec fn part_texts(e: Engine, ids: Seq<NodeId>) -> Seq<Seq<char>>
    decreases ids.len(),
{
    if ids.len() == 0 {
        Seq::empty()
    } else if is_text_part(e, ids.last()) {
        part_texts(e, ids.drop_last()).push(e.node_map()[ids.last()].payload->Text_0@)
    } else {
        part_texts(e, ids.drop_last())
    }
}

/// The content of a page: the texts of its parts, a blank line between
/// each two.
pub open spec fn page_content(e: Engine, id: NodeId) -> Seq<char> {
    joined(part_texts(e, connected_ids(&e, id, CommonEdgeLabels::ParentOf)), "\n\n"@)
}

/// The schema of a classification.
pub open spec fn classification_schema() -> Seq<char> {
    "type Classification = { is_relevant: boolean, reason: string, insight_if_classified_as_relevant: string | null, };"@
}

/// The question of the classifier settings: those of the first node with
/// the `ClassifierSettings` label, the part of the prompt after its first
/// `": "` (and before the next).
pub open spec fn classification_question(e: Engine) -> Result<Seq<char>, PiErrorKind> {
    let ids = labelled_ids(&e, NodeLabel::ClassifierSettings);
    if ids.len() == 0 || !e.node_map().contains_key(ids[0]) {
        Err(PiErrorKind::InternalError)
    } else {
        match e.node_map()[ids[0]].payload {
            PayloadView::ClassifierSettings(s) => match s.prompt_to_classify_content_as_relevant_to_objective_or_not {
                Some(p) => Ok(second_piece(p@, ": "@)),
                None => Err(PiErrorKind::GraphError),
            },
            _ => Err(PiErrorKind::GraphError),
        }
    }
}

/// The prompt that asks the model to classify the content of page `id`.
pub open spec fn classifier_prompt(e: Engine, id: NodeId) -> Result<Seq<char>, PiErrorKind> {
    match classification_question(e) {
        Err(k) => Err(k),
        Ok(q) => Ok(
            q + "\n\n        Content to be classified:\n        "@ + page_content(e, id)
                + "\n\n        Using the following schema, respond in JSON format:\n        "@
                + classification_schema() + "\n        ```"@,
        ),
    }
}

/// What asking the model to classify page `id` does.
pub open spec fn classification_requested(e0: Engine, e1: Engine, id: NodeId, api_key: Option<String>, model: Seq<char>, r: PiResult<()>) -> bool {
    match classifier_prompt(e0, id) {
        Err(k) => r matches Err(x) && x.kind() == k && e1 == e0,
        Ok(p) => prompt_sent(e0, e1, id, api_key, model, p, r),
    }
}

/// The effect of `Classifier::process` with these arguments, and its
/// result.
pub open spec fn classifier_effect(e0: Engine, e1: Engine, id: NodeId, data: Option<ReplyData<Classification>>, api_key: Option<String>, model: Seq<char>, r: PiResult<()>) -> bool {
    match data {
        None => classification_requested(e0, e1, id, api_key, model, r),
        Some(ReplyData::Error(_)) => r is Ok && e1 == e0,
        Some(ReplyData::Response(Err(e))) => r == Err::<(), PiError>(e) && e1 == e0,
        Some(ReplyData::Response(Ok(c))) => attached_then_processed(
            e0,
            e1,
            id,
            PayloadView::Classification(c),
            seq![NodeLabel::Classification, NodeLabel::AddedByAI],
            (CommonEdgeLabels::Classifies, CommonEdgeLabels::ClassifiedFor),
            unit_outcome(r),
        ),
    }
}

/// The content of a page.
pub fn get_page_content(engine: &Engine, id: NodeId) -> (r: String)
    requires
        engine.wf(),
    ensures
        r@ == page_content(*engine, id),
{
    let ids = engine.get_node_ids_connected_with_label(&id, &CommonEdgeLabels::ParentOf);
    let ghost iv = ids@;
    let mut texts: Vec<String> = Vec::new();
    let mut i: usize = 0;
    assert(iv.take(0) =~= Seq::<NodeId>::empty());
    assert(string_views(texts@) =~= Seq::<Seq<char>>::empty());
    while i < ids.len()
        invariant
            engine.wf(),
            iv == ids@,
            i <= iv.len(),
            string_views(texts@) == part_texts(*engine, iv.take(i as int)),
        decreases iv.len() - i,
    {
        let nid = ids[i];
        assert(iv.take(i + 1).drop_last() =~= iv.take(i as int));
        assert(iv.take(i + 1).last() == nid);
        match engine.get_node_by_id(&nid) {
            Some(node) => match &node.payload {
                Payload::Text(t) => {
                    if labels_contain(&node.labels, NodeLabel::Partial) {
                        let ghost before = texts@;
                        texts.push(t.clone());
                        assert(string_views(texts@) =~= string_views(before).push(t@));
                    }
                },
                _ => {},
            },
            None => {},
        }
        i = i + 1;
    }
    assert(iv.take(iv.len() as int) =~= iv);
    join_strings(&texts, "\n\n")
}

impl Classifier {
    /// The prompt that asks the model to classify the content of the page.
    pub fn get_llm_prompt(node: &NodeItem, engine: &Engine) -> (r: PiResult<String>)
        requires
            engine.wf(),
        ensures
            match r {
                Ok(p) => classifier_prompt(*engine, node.id) == Ok::<Seq<char>, PiErrorKind>(p@),
                Err(e) => classifier_prompt(*engine, node.id) == Err::<Seq<char>, PiErrorKind>(e.kind()),
            },
    {
        let content = get_page_content(engine, node.id);
        let ids = engine.get_node_ids_with_label(&NodeLabel::ClassifierSettings);
        if ids.len() == 0 {
            return Err(PiError::InternalError(String::from_str("No ClassifierSettings found")));
        }
        let question = match engine.get_node_by_id(&ids[0]) {
            None => {
                return Err(PiError::InternalError(String::from_str("ClassifierSettings node not found")));
            },
            Some(n) => match &n.payload {
                Payload::ClassifierSettings(s) => match &s.prompt_to_classify_content_as_relevant_to_objective_or_not {
                    Some(p) => split_second(p.as_str(), ": "),
                    None => {
                        return Err(PiError::GraphError(String::from_str("Missing prompt in ClassifierSettings")));
                    },
                },
                _ => {
                    return Err(PiError::GraphError(String::from_str("Invalid payload type for ClassifierSettings")));
                },
            },
        };
        let mut s = question;
        s.append("\n\n        Content to be classified:\n        ");
        s.append(content.as_str());
        s.append("\n\n        Using the following schema, respond in JSON format:\n        ");
        s.append("type Classification = { is_relevant: boolean, reason: string, insight_if_classified_as_relevant: string | null, };");
        s.append("\n        ```");
        Ok(s)
    }

    /// Asks the model to classify the content of the page.
    pub fn send_llm_request(node: &NodeItem, engine: &mut Engine, api_key: Option<String>, model: &str) -> (r: PiResult<()>)
        requires
            old(engine).wf(),
        ensures
            final(engine).wf(),
            classification_requested(*old(engine), *final(engine), node.id, api_key, model@, r),
    {
        let prompt = match Self::get_llm_prompt(node, engine) {
            Ok(p) => p,
            Err(e) => {
                return Err(e);
            },
        };
        Anthropic::send_prompt(engine, node.id, prompt.as_str(), api_key, model)
    }

    /// Processes a page for classification: asks the model when nothing has
    /// arrived yet; records its classification as a node that classifies
    /// the page, and marks the page as processed, when it has answered; does
    /// nothing when the request failed. A reply that could not be read is
    /// returned as the error.
    pub fn process(node: &NodeItem, engine: &mut Engine, data_from_previous_request: Option<ReplyData<Classification>>, api_key: Option<String>, model: &str) -> (r: PiResult<()>)
        requires
            old(engine).wf(),
        ensures
            final(engine).wf(),
            classifier_effect(*old(engine), *final(engine), node.id, data_from_previous_request, api_key, model@, r),
    {
        match data_from_previous_request {
            None => Self::send_llm_request(node, engine, api_key, model),
            Some(ReplyData::Error(_)) => Ok(()),
            Some(ReplyData::Response(Err(e))) => Err(e),
            Some(ReplyData::Response(Ok(c))) => {
                let mut labels = Vec::new();
                labels.push(NodeLabel::Classification);
                labels.push(NodeLabel::AddedByAI);
                assert(labels@ =~= seq![NodeLabel::Classification, NodeLabel::AddedByAI]);
                attach_then_mark_processed(
                    engine,
                    node.id,
                    Payload::Classification(c),
                    labels,
                    (CommonEdgeLabels::Classifies, CommonEdgeLabels::ClassifiedFor),
                )
            },
        }
    }
}

} // verus!
