use vstd::prelude::*;

verus! {

/// Kinds of named entities that can be extracted from content.
#[derive(Clone, Copy, Debug, PartialEq, Eq, Structural)]
pub enum EntityName {
    Person,
    Organization,
    Date,
    Place,
}

/// A named entity found in content, with its position when known.
#[derive(Debug)]
pub struct ExtractedEntity {
    pub entity_name: EntityName,
    pub matching_text: String,
    pub start: Option<usize>,
    pub end: Option<usize>,
}

impl Clone for ExtractedEntity {
    fn clone(&self) -> (r: Self)
        ensures
            r == *self,
    {
        ExtractedEntity {
            entity_name: self.entity_name,
            matching_text: self.matching_text.clone(),
            start: self.start,
            end: self.end,
        }
    }
}

} // verus!

verus! {

use crate::engine::attach::{attach_node, attached, id_outcome};
use crate::engine::graph::{connected_ids, first_where, labelled_ids, lemma_first_where_at, lemma_first_where_none, lemma_ids_with_label, Engine};
use crate::engine::labels::{CommonEdgeLabels, NodeId, NodeLabel};
use crate::engine::node::{labels_contain, NodeItem, Payload, PayloadView};
use crate::entity::classifier::{get_page_content, page_content};
use crate::entity::pixlie::{enabled_in, is_tool_enabled};
use crate::error::{PiError, PiErrorKind, PiResult};

/// Extracts named entities from the content of pages.
pub struct EntityExtraction;

/// Whether the tool with settings under `label` is switched on, by the first
/// node with the label; an `InternalError` when there is no such node or it
/// holds no settings.
pub open spec fn tool_enabled(e: Engine, label: NodeLabel) -> Result<bool, PiErrorKind> {
    let ids = labelled_ids(&e, label);
    if ids.len() == 0 {
        Err(PiErrorKind::InternalError)
    } else {
        match enabled_in(e.node_map()[ids[0]].payload) {
            Some(b) => Ok(b),
            None => Err(PiErrorKind::InternalError),
        }
    }
}

/// The test that an ID names a node, present in the graph, that lists the
/// kinds of entities to extract.
pub open spec fn entities_pred(e: Engine) -> spec_fn(NodeId) -> bool {
    |id: NodeId| {
        &&& e.node_map().contains_key(id)
        &&& e.node_map()[id].labels.contains(NodeLabel::NamedEntitiesToExtract)
        &&& e.node_map()[id].payload is NamedEntitiesToExtract
    }
}

/// What extracting entities from page `id` calls for: nothing while the
/// classifier is switched off or no kinds of entities were suggested for
/// the objective; otherwise the content of the page and the kinds of
/// entities that the first objective suggests. An `InternalError` when the
/// classifier settings or the objective are missing.
pub open spec fn extraction_plan(e: Engine, id: NodeId) -> Result<Option<(Seq<char>, Seq<EntityName>)>, PiErrorKind> {
    match tool_enabled(e, NodeLabel::ClassifierSettings) {
        Err(k) => Err(k),
        Ok(false) => Ok(None),
        Ok(true) => {
            let objectives = labelled_ids(&e, NodeLabel::Objective);
            if objectives.len() == 0 {
                Err(PiErrorKind::InternalError)
            } else {
                match first_where(connected_ids(&e, objectives[0], CommonEdgeLabels::Suggests), entities_pred(e)) {
                    None => Ok(None),
                    Some(x) => Ok(Some((page_content(e, id), e.node_map()[x].payload->NamedEntitiesToExtract_0))),
                }
            }
        },
    }
}

/// The labels of a node of extracted entities.
pub open spec fn extracted_labels() -> Seq<NodeLabel> {
    seq![NodeLabel::AddedByGliner, NodeLabel::ExtractedNamedEntities]
}

/// The extracted entities are attached to page `page` as a node it
/// suggests, with outcome `r`.
pub open spec fn entities_recorded(e0: Engine, e1: Engine, page: NodeId, v: Seq<ExtractedEntity>, r: Result<(), PiErrorKind>) -> bool {
    match r {
        Ok(_) => exists|id: NodeId| #[trigger] attached(
            e0,
            e1,
            page,
            PayloadView::ExtractedNamedEntities(v),
            extracted_labels(),
            (CommonEdgeLabels::Suggests, CommonEdgeLabels::SuggestedFor),
            Ok::<NodeId, PiErrorKind>(id),
        ),
        Err(k) => attached(
            e0,
            e1,
            page,
            PayloadView::ExtractedNamedEntities(v),
            extracted_labels(),
            (CommonEdgeLabels::Suggests, CommonEdgeLabels::SuggestedFor),
            Err::<NodeId, PiErrorKind>(k),
        ),
    }
}

impl EntityExtraction {
    /// What extracting entities from the page calls for: its content and
    /// the kinds of entities to look for, or nothing.
    #[verifier::loop_isolation(false)]
    pub fn plan(node: &NodeItem, engine: &Engine) -> (r: PiResult<Option<(String, Vec<EntityName>)>>)
        requires
            engine.wf(),
        ensures
            match r {
                Ok(None) => extraction_plan(*engine, node.id) == Ok::<Option<(Seq<char>, Seq<EntityName>)>, PiErrorKind>(None),
                Ok(Some((c, k))) => extraction_plan(*engine, node.id) == Ok::<Option<(Seq<char>, Seq<EntityName>)>, PiErrorKind>(Some((c@, k@))),
                Err(e) => extraction_plan(*engine, node.id) == Err::<Option<(Seq<char>, Seq<EntityName>)>, PiErrorKind>(e.kind()),
            },
    {
        match is_tool_enabled(engine, NodeLabel::ClassifierSettings) {
            Err(e) => {
                return Err(e);
            },
            Ok(false) => {
                return Ok(None);
            },
            Ok(true) => {},
        }
        let content = get_page_content(engine, node.id);
        let objectives = engine.get_node_ids_with_label(&NodeLabel::Objective);
        if objectives.len() == 0 {
            return Err(PiError::InternalError(String::from_str("No Objective nodes found")));
        }
        let oid = objectives[0];
        let ids = engine.get_node_ids_connected_with_label(&oid, &CommonEdgeLabels::Suggests);
        let ghost p = entities_pred(*engine);
        let mut i: usize = 0;
        while i < ids.len()
            invariant
                engine.wf(),
                ids@ == connected_ids(engine, oid, CommonEdgeLabels::Suggests),
                i <= ids@.len(),
                p == entities_pred(*engine),
                forall|j: int| 0 <= j < i ==> !p(#[trigger] ids@[j]),
            decreases ids@.len() - i,
        {
            let id = ids[i];
            match engine.get_node_by_id(&id) {
                Some(n) => {
                    if labels_contain(&n.labels, NodeLabel::NamedEntitiesToExtract) {
                        match &n.payload {
                            Payload::NamedEntitiesToExtract(kinds) => {
                                proof {
                                    lemma_first_where_at(ids@, p, i as int);
                                }
                                let k = kinds.clone();
                                assert(k@ =~= kinds@);

                                return Ok(Some((content, k)));
                            },
                            _ => {},
                        }
                    }
                },
                None => {},
            }
            assert(!p(ids@[i as int]));
            i = i + 1;
        }
        proof {
            lemma_first_where_none(ids@, p);
        }
        Ok(None)
    }

    /// Records the entities extracted from the page as a node it suggests.
    /// An error of the extraction is returned as it is.
    pub fn record(node: &NodeItem, engine: &mut Engine, extracted: PiResult<Vec<ExtractedEntity>>) -> (r: PiResult<()>)
        requires
            old(engine).wf(),
        ensures
            final(engine).wf(),
            match extracted {
                Err(e) => r == Err::<(), PiError>(e) && *final(engine) == *old(engine),
                Ok(v) => entities_recorded(*old(engine), *final(engine), node.id, v@, match r {
                    Ok(_) => Ok(()),
                    Err(e) => Err(e.kind()),
                }),
            },
    {
        let v = match extracted {
            Err(e) => {
                return Err(e);
            },
            Ok(v) => v,
        };
        let ghost e0 = *engine;
        let ghost vv = v@;
        let mut labels = Vec::new();
        labels.push(NodeLabel::AddedByGliner);
        labels.push(NodeLabel::ExtractedNamedEntities);
        assert(labels@ =~= extracted_labels());
        let a = attach_node(
            engine,
            node.id,
            Payload::ExtractedNamedEntities(v),
            labels,
            (CommonEdgeLabels::Suggests, CommonEdgeLabels::SuggestedFor),
        );
        match a {
            Ok(id) => {
                assert(attached(e0, *engine, node.id, PayloadView::ExtractedNamedEntities(vv),
                    extracted_labels(), (CommonEdgeLabels::Suggests, CommonEdgeLabels::SuggestedFor), Ok(id)));
                Ok(())
            },
            Err(e) => {
                assert(attached(e0, *engine, node.id, PayloadView::ExtractedNamedEntities(vv),
                    extracted_labels(), (CommonEdgeLabels::Suggests, CommonEdgeLabels::SuggestedFor), Err(e.kind())));
                Err(e)
            },
        }
    }
}

} // verus!
