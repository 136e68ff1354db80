use vstd::prelude::*;
use crate::engine::graph::{
    first_where, labelled_ids, lemma_first_where_at, lemma_first_where_none, lemma_ids_with_label,
    Engine,
};
use crate::engine::labels::{NodeId, NodeLabel};
use crate::engine::node::{NodeItem, NodeItemView, Payload, PayloadView};
use crate::entity::web::domain::{found_id, found_in};
use crate::engine::api::sorted_listing;
use crate::engine::node::labels_contain;
use crate::engine::ops::get_or_add_effect;
use crate::engine::processing::insert_sorted;
use crate::error::{PiError, PiResult};
use crate::text::{concat, contains_str, has_substring, lowercase, str_eq, to_lowercase};

verus! {

/// Search terms saved by the user, queried against the text of web pages.
pub struct SavedSearch;

/// The test that an ID names a node whose text is the search term.
pub open spec fn search_term_pred(e: &Engine, term: Seq<char>) -> spec_fn(NodeId) -> bool {
    |id: NodeId| match e.node_map()[id].payload {
        PayloadView::Text(t) => t@ == term,
        _ => false,
    }
}

/// The first search term node, in the order nodes were added, with the text.
pub open spec fn search_term_by_text(e: &Engine, term: Seq<char>) -> Option<NodeId> {
    first_where(labelled_ids(e, NodeLabel::SearchTerm), search_term_pred(e, term))
}

impl SavedSearch {
    /// Finds the search term node with the given text.
    #[verifier::loop_isolation(false)]
    pub fn find_existing<'a>(engine: &'a Engine, search_term: &str) -> (r: PiResult<Option<&'a NodeItem>>)
        requires
            engine.wf(),
        ensures
            found_in(engine, r),
            found_id(r) == Ok::<Option<NodeId>, crate::error::PiErrorKind>(search_term_by_text(engine, search_term@)),
    {
        proof {
            engine.lemma_wf();
            lemma_ids_with_label(engine.node_order(), engine.node_map(), NodeLabel::SearchTerm);
        }
        let ids = engine.get_node_ids_with_label(&NodeLabel::SearchTerm);
        let ghost p = search_term_pred(engine, search_term@);
        let mut i: usize = 0;
        while i < ids.len()
            invariant
                i <= ids@.len(),
                forall|j: int| 0 <= j < i ==> !p(#[trigger] ids@[j]),
            decreases ids@.len() - i,
        {
            let id = ids[i];
            assert(ids@.contains(id));
            assert(engine.node_order().contains(id));
            match engine.get_node_by_id(&id) {
                Some(node) => match &node.payload {
                    Payload::Text(text) => {
                        if str_eq(text.as_str(), search_term) {
                            proof {
                                lemma_first_where_at(ids@, p, i as int);
                            }
                            return Ok(Some(node));
                        }
                    },
                    _ => {},
                },
                None => {},
            }
            i = i + 1;
        }
        proof {
            lemma_first_where_none(ids@, p);
        }
        Ok(None)
    }
}

/// True when the node holds text that contains the search term, both taken
/// in lowercase, and is a title, a heading or a paragraph.
pub open spec fn matches_search(e: &Engine, term: Seq<char>) -> spec_fn(NodeId) -> bool {
    |x: NodeId| e.node_map().contains_key(x) && {
        let n = e.node_map()[x];
        &&& (n.labels.contains(NodeLabel::Title) || n.labels.contains(NodeLabel::Heading)
            || n.labels.contains(NodeLabel::Paragraph))
        &&& match n.payload {
            PayloadView::Text(t) => has_substring(lowercase(t@), lowercase(term)),
            _ => false,
        }
    }
}

/// The labels of a saved search term added by the user.
pub open spec fn user_search_term_labels() -> Seq<NodeLabel> {
    seq![NodeLabel::AddedByUser, NodeLabel::SearchTerm]
}

impl SavedSearch {
    /// Saves a search term given by the user, unless it is saved already.
    pub fn add_manually(engine: &mut Engine, search_term: &str) -> (r: PiResult<()>)
        requires
            old(engine).wf(),
        ensures
            final(engine).wf(),
            exists|x: PiResult<crate::engine::node::ExistingOrNewNodeId>, t: String| {
                &&& t@ == search_term@
                &&& get_or_add_effect(old(engine), final(engine), PayloadView::Text(t), user_search_term_labels(), true, None, x)
                &&& match x {
                    Ok(_) => r is Ok,
                    Err(e) => r == Err::<(), PiError>(e),
                }
            },
    {
        let t = String::from_str(search_term);
        let ghost tv = t;
        let mut labels: Vec<NodeLabel> = Vec::new();
        labels.push(NodeLabel::AddedByUser);
        labels.push(NodeLabel::SearchTerm);
        assert(labels@ =~= user_search_term_labels());
        let x = engine.get_or_add_node(Payload::Text(t), labels, true, None);
        match x {
            Ok(_) => Ok(()),
            Err(e) => Err(e),
        }
    }

    /// The IDs of the titles, headings and paragraphs whose text contains the
    /// text of a search term node, ignoring case, by ascending ID. A node
    /// that is not a search term is an error; one without text matches
    /// nothing.
    pub fn query(node: &NodeItem, engine: &Engine, _node_id: &NodeId) -> (r: PiResult<Vec<NodeId>>)
        requires
            engine.wf(),
        ensures
            match r {
                Err(e) => e is InternalError && !node@.labels.contains(NodeLabel::SearchTerm),
                Ok(ids) => node@.labels.contains(NodeLabel::SearchTerm) && match node@.payload {
                    PayloadView::Text(t) => sorted_listing(ids@, matches_search(engine, t@)),
                    _ => ids@.len() == 0,
                },
            },
    {
        if !labels_contain(&node.labels, NodeLabel::SearchTerm) {
            return Err(PiError::InternalError(String::from_str("Expected SearchTerm")));
        }
        let term = match &node.payload {
            Payload::Text(t) => t,
            _ => {
                return Ok(Vec::new());
            },
        };
        let term_lower = to_lowercase(term.as_str());
        let ghost p = matches_search(engine, term@);
        proof {
            engine.lemma_wf();
        }
        let n = engine.node_count();
        let mut r: Vec<NodeId> = Vec::new();
        let mut i: usize = 0;
        while i < n
            invariant
                engine.wf(),
                n == engine.node_order().len(),
                i <= n,
                p == matches_search(engine, term@),
                term_lower@ == lowercase(term@),
                engine.node_order().no_duplicates(),
                forall|k: NodeId| engine.node_map().contains_key(k) <==> #[trigger] engine.node_order().contains(k),
                crate::engine::processing::strictly_sorted(r@),
                forall|x: NodeId| #[trigger] r@.contains(x) <==> exists|j: int| 0 <= j < i
                    && engine.node_order()[j] == x && p(x),
            decreases n - i,
        {
            let id = engine.node_id_at(i);
            assert(engine.node_order().contains(id));
            let item = engine.get_node_by_id(&id).unwrap();
            let mut hit = false;
            if labels_contain(&item.labels, NodeLabel::Title) || labels_contain(&item.labels, NodeLabel::Heading)
                || labels_contain(&item.labels, NodeLabel::Paragraph) {
                match &item.payload {
                    Payload::Text(text) => {
                        let text_lower = to_lowercase(text.as_str());
                        hit = contains_str(text_lower.as_str(), term_lower.as_str());
                    },
                    _ => {},
                }
            }
            assert(hit == p(id));
            if hit {
                proof {
                    if r@.contains(id) {
                        let j = choose|j: int| 0 <= j < i && engine.node_order()[j] == id && p(id);
                        assert(engine.node_order()[i as int] == id);
                    }
                }
                insert_sorted(&mut r, id);
            }
            i = i + 1;
        }
        proof {
            assert forall|x: NodeId| #[trigger] r@.contains(x) <==> p(x) by {
                if r@.contains(x) {
                    let j = choose|j: int| 0 <= j < n && engine.node_order()[j] == x && p(x);
                }
                if p(x) {
                    assert(engine.node_order().contains(x));
                    let j = choose|j: int| 0 <= j < engine.node_order().len() && engine.node_order()[j] == x;
                }
            }
        }
        Ok(r)
    }
}

} // verus!
