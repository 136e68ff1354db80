use vstd::prelude::*;
use crate::engine::api::{EntityGroup, Explore};
use crate::engine::explore::{
    explore_depths, explore_level, explore_node, explore_of, explored, of_interest, visit_edges, ExploreState,
};
use crate::engine::flags::{NodeFlags, HAD_ERROR_BIT, IS_BLOCKED_BIT, IS_PROCESSED_BIT, IS_REQUESTING_BIT};
use crate::engine::graph::{labelled_ids, lemma_ids_with_label, Engine};
use crate::engine::labels::{EdgeLabel, NodeId, NodeLabel};
use crate::engine::node::{NodeItemView, PayloadView};
use crate::engine::processing::{objective_processed, pick, sorted_pick, RETRY_AFTER_ERROR_MILLIS};
use crate::engine::reports::{entity_groups_of, entity_kinds, entity_name_name, has_texts, texts_for};
use crate::entity::conclusion::{insight_of, insights, insights_of};
use crate::entity::named_entity::{EntityName, ExtractedEntity};
use crate::entity::web::metadata::WebMetadataView;
use crate::entity::web::scraper::metadata_with;
use crate::error::PiErrorKind;
use crate::entity::web::html::trimmed;
use crate::text::{has_substring, string_views};

verus! {

// ---------------------------------------------------------------------------
// Explore

/// True when every node whose edge list the walk recorded has one, and every
/// target of those edges that exists and is of interest has been shown.
pub open spec fn recorded_targets_shown(e: &Engine, st: ExploreState) -> bool {
    forall|i: int, k: int|
        0 <= i < st.recorded.len() ==> {
            &&& e.edge_map().contains_key(#[trigger] st.recorded[i])
            &&& (0 <= k < e.edge_map()[st.recorded[i]].edges.len() && e.node_map().contains_key(
                e.edge_map()[st.recorded[i]].edges[k].0,
            ) && of_interest(e.node_map()[e.edge_map()[st.recorded[i]].edges[k].0].labels)
                ==> st.visited.contains(#[trigger] e.edge_map()[st.recorded[i]].edges[k].0))
        }
}

/// The walk through the edges of a node shows every target of interest,
/// keeps every node shown before, and records nothing.
pub proof fn lemma_visit_edges_shows(e: &Engine, st: ExploreState, g: Seq<Seq<NodeId>>, s: Seq<(NodeId, EdgeLabel)>)
    ensures
        visit_edges(e, st, g, s).0.recorded == st.recorded,
        forall|x: NodeId| st.visited.contains(x) ==> #[trigger] visit_edges(e, st, g, s).0.visited.contains(x),
        forall|k: int|
            0 <= k < s.len() && e.node_map().contains_key(#[trigger] s[k].0) && of_interest(e.node_map()[s[k].0].labels)
                ==> visit_edges(e, st, g, s).0.visited.contains(s[k].0),
    decreases s.len(),
{
    if s.len() > 0 {
        let p = s.drop_last();
        lemma_visit_edges_shows(e, st, g, p);
        let (a, h) = visit_edges(e, st, g, p);
        let t = s.last().0;
        let r = visit_edges(e, st, g, s).0;
        assert forall|x: NodeId| a.visited.contains(x) implies r.visited.contains(x) by {
            if !(a.visited.contains(t) || !e.node_map().contains_key(t) || !of_interest(e.node_map()[t].labels)) {
                let j = choose|j: int| 0 <= j < a.visited.len() && a.visited[j] == x;
                assert(a.visited.push(t)[j] == x);
            }
        }
        assert forall|k: int|
            0 <= k < s.len() && e.node_map().contains_key(#[trigger] s[k].0) && of_interest(e.node_map()[s[k].0].labels)
                implies r.visited.contains(s[k].0) by {
            if k < p.len() {
                assert(s[k] == p[k]);
                assert(a.visited.contains(p[k].0));
            } else {
                if !a.visited.contains(t) {
                    assert(a.visited.push(t)[a.visited.len() as int] == t);
                }
            }
        }
    }
}

/// Walking one node keeps what was shown and keeps the recorded targets
/// shown.
pub proof fn lemma_explore_node_shows(e: &Engine, st: ExploreState, n: NodeId)
    requires
        recorded_targets_shown(e, st),
    ensures
        recorded_targets_shown(e, explore_node(e, st, n)),
        forall|x: NodeId| st.visited.contains(x) ==> #[trigger] explore_node(e, st, n).visited.contains(x),
{
    if e.edge_map().contains_key(n) {
        let s = e.edge_map()[n].edges;
        lemma_visit_edges_shows(e, st, Seq::empty(), s);
        let a = visit_edges(e, st, Seq::empty(), s).0;
        let r = explore_node(e, st, n);
        assert(r.visited == a.visited);
        assert(r.recorded == st.recorded.push(n));
        assert forall|i: int, k: int|
            0 <= i < r.recorded.len() implies {
                &&& e.edge_map().contains_key(#[trigger] r.recorded[i])
                &&& (0 <= k < e.edge_map()[r.recorded[i]].edges.len() && e.node_map().contains_key(
                    e.edge_map()[r.recorded[i]].edges[k].0,
                ) && of_interest(e.node_map()[e.edge_map()[r.recorded[i]].edges[k].0].labels)
                    ==> r.visited.contains(#[trigger] e.edge_map()[r.recorded[i]].edges[k].0))
            } by {
            if i < st.recorded.len() {
                assert(r.recorded[i] == st.recorded[i]);
                let t = e.edge_map()[st.recorded[i]].edges[k].0;
                if 0 <= k < e.edge_map()[r.recorded[i]].edges.len() && e.node_map().contains_key(t)
                    && of_interest(e.node_map()[t].labels) {
                    assert(st.visited.contains(t));
                }
            } else {
                assert(r.recorded[i] == n);
                if 0 <= k < s.len() {
                    assert(s[k].0 == e.edge_map()[r.recorded[i]].edges[k].0);
                }
            }
        }
    }
}

/// Walking a level keeps what was shown and keeps the recorded targets
/// shown.
pub proof fn lemma_explore_level_shows(e: &Engine, st: ExploreState, level: Seq<NodeId>)
    requires
        recorded_targets_shown(e, st),
    ensures
        recorded_targets_shown(e, explore_level(e, st, level)),
        forall|x: NodeId| st.visited.contains(x) ==> #[trigger] explore_level(e, st, level).visited.contains(x),
    decreases level.len(),
{
    if level.len() > 0 {
        lemma_explore_level_shows(e, st, level.drop_last());
        let a = explore_level(e, st, level.drop_last());
        lemma_explore_node_shows(e, a, level.last());
    }
}

/// Walking several levels keeps the recorded targets shown.
pub proof fn lemma_explore_depths_shows(e: &Engine, st: ExploreState, level: Seq<NodeId>, d: nat)
    requires
        recorded_targets_shown(e, st),
    ensures
        recorded_targets_shown(e, explore_depths(e, st, level, d)),
    decreases d,
{
    if d > 0 {
        let s0 = ExploreState { visited: st.visited, next: Seq::empty(), recorded: st.recorded, siblings: st.siblings };
        assert(recorded_targets_shown(e, s0));
        lemma_explore_level_shows(e, s0, level);
        let a = explore_level(e, s0, level);
        lemma_explore_depths_shows(e, a, a.next, (d - 1) as nat);
    }
}

/// True when the labels hold one of the labels that the explore request
/// shows: objectives, the three kinds of settings, links, domains and web
/// searches.
pub open spec fn shown_label(labels: Seq<NodeLabel>) -> bool {
    exists|l: NodeLabel| #[trigger] labels.contains(l) && (l == NodeLabel::Objective || l == NodeLabel::ProjectSettings
        || l == NodeLabel::CrawlerSettings || l == NodeLabel::ClassifierSettings || l == NodeLabel::Link
        || l == NodeLabel::DomainName || l == NodeLabel::WebSearch)
}

/// Nodes of interest, domains among them, are shown: in the answer to an
/// explore request, every node with an objective, settings, link, domain
/// or web search label that an edge of a listed edge list leads to is among
/// the nodes shown.
pub proof fn law_explore_shows_domains(e: &Engine, x: Explore, start: NodeId, i: int, j: int)
    requires
        e.wf(),
        explore_of(x, e, start),
        0 <= i < x.edges.0@.len(),
        0 <= j < x.edges.0@[i].1.edges@.len(),
        e.node_map().contains_key(x.edges.0@[i].1.edges@[j].0),
        shown_label(e.node_map()[x.edges.0@[i].1.edges@[j].0].labels),
    ensures
        exists|k: int| 0 <= k < x.nodes@.len() && (#[trigger] x.nodes@[k]).id == x.edges.0@[i].1.edges@[j].0,
{
    e.lemma_wf();
    let st0 = ExploreState { visited: seq![start], next: Seq::empty(), recorded: Seq::empty(), siblings: Seq::empty() };
    lemma_explore_depths_shows(e, st0, seq![start], crate::engine::explore::EXPLORE_DEPTH as nat);
    let st = explored(e, start);
    let m = st.recorded[i];
    let t = x.edges.0@[i].1.edges@[j].0;
    assert(x.edges.0@[i].0 == m);
    assert(e.edge_map().contains_key(m));
    assert(t == e.edge_map()[m].edges[j].0);
    let l = choose|l: NodeLabel| #[trigger] e.node_map()[t].labels.contains(l) && (l == NodeLabel::Objective
        || l == NodeLabel::ProjectSettings || l == NodeLabel::CrawlerSettings || l == NodeLabel::ClassifierSettings
        || l == NodeLabel::Link || l == NodeLabel::DomainName || l == NodeLabel::WebSearch);
    assert(of_interest(e.node_map()[t].labels));
    assert(st.visited.contains(e.edge_map()[m].edges[j].0));
    let k = choose|k: int| 0 <= k < st.visited.len() && st.visited[k] == t;
    assert(crate::engine::api::api_node_of(x.nodes@[k], e.node_map()[st.visited[k]]));
    assert(x.nodes@[k].id == t);
}

// ---------------------------------------------------------------------------
// Entities

/// A text found for a kind of entity is among the texts for that kind.
pub proof fn lemma_texts_for_has(ents: Seq<ExtractedEntity>, k: int)
    requires
        0 <= k < ents.len(),
    ensures
        texts_for(ents, ents[k].entity_name).contains(ents[k].matching_text@),
    decreases ents.len(),
{
    let kind = ents[k].entity_name;
    let prev = texts_for(ents.drop_last(), kind);
    if k < ents.len() - 1 {
        lemma_texts_for_has(ents.drop_last(), k);
        assert(ents.drop_last()[k] == ents[k]);
        let j = choose|j: int| 0 <= j < prev.len() && prev[j] == ents[k].matching_text@;
        let cur = texts_for(ents, kind);
        if cur != prev {
            assert(cur[j] == prev[j]);
        }
    } else {
        let cur = texts_for(ents, kind);
        if prev.contains(ents[k].matching_text@) {
        } else {
            assert(cur[prev.len() as int] == ents[k].matching_text@);
        }
    }
}

/// Every extracted entity is reported: the groups hold a group named after
/// the entity's kind (Person, Organization, Date or Place) that lists the
/// entity's text.
pub proof fn law_every_entity_reported(gs: Seq<EntityGroup>, ents: Seq<ExtractedEntity>, k: int)
    requires
        entity_groups_of(gs, ents),
        0 <= k < ents.len(),
    ensures
        exists|i: int, j: int|
            0 <= i < gs.len() && 0 <= j < gs[i].extracted_text@.len() && (#[trigger] gs[i]).entity_name@
                == entity_name_name(ents[k].entity_name) && (#[trigger] gs[i].extracted_text@[j])@
                == ents[k].matching_text@,
{
    let kind = ents[k].entity_name;
    lemma_texts_for_has(ents, k);
    let all = entity_kinds();
    let kinds = all.filter(has_texts(ents));
    all.filter_lemma(has_texts(ents));
    let a: int = match kind {
        EntityName::Person => 0,
        EntityName::Organization => 1,
        EntityName::Date => 2,
        EntityName::Place => 3,
    };
    assert(all[a] == kind);
    assert(has_texts(ents)(all[a]));
    assert(kinds.contains(all[a]));
    let i = choose|i: int| 0 <= i < kinds.len() && kinds[i] == kind;
    let texts = texts_for(ents, kind);
    assert(string_views(gs[i].extracted_text@) == texts);
    let j = choose|j: int| 0 <= j < texts.len() && texts[j] == ents[k].matching_text@;
    assert(string_views(gs[i].extracted_text@)[j] == gs[i].extracted_text@[j]@);
}

/// Every text found for a kind is the text of an entity of that kind.
pub proof fn lemma_texts_for_from(ents: Seq<ExtractedEntity>, kind: EntityName, s: Seq<char>)
    requires
        texts_for(ents, kind).contains(s),
    ensures
        exists|k: int| 0 <= k < ents.len() && (#[trigger] ents[k]).entity_name == kind && ents[k].matching_text@ == s,
    decreases ents.len(),
{
    let prev = texts_for(ents.drop_last(), kind);
    if prev.contains(s) {
        lemma_texts_for_from(ents.drop_last(), kind, s);
        let k = choose|k: int| 0 <= k < ents.drop_last().len() && (#[trigger] ents.drop_last()[k]).entity_name == kind
            && ents.drop_last()[k].matching_text@ == s;
        assert(ents[k] == ents.drop_last()[k]);
    } else {
        let cur = texts_for(ents, kind);
        let j = choose|j: int| 0 <= j < cur.len() && cur[j] == s;
        let x = ents.last();
        if x.entity_name == kind && !prev.contains(x.matching_text@) {
            assert(j == prev.len());
        }
        assert(ents[ents.len() - 1] == x);
    }
}

/// Nothing is reported that was not extracted: each text of a group is the
/// text of an extracted entity of the kind the group is named after, and a
/// group lists each text once.
pub proof fn law_reported_entities_extracted(gs: Seq<EntityGroup>, ents: Seq<ExtractedEntity>, i: int, j: int)
    requires
        entity_groups_of(gs, ents),
        0 <= i < gs.len(),
        0 <= j < gs[i].extracted_text@.len(),
    ensures
        exists|k: int| 0 <= k < ents.len() && entity_name_name((#[trigger] ents[k]).entity_name) == gs[i].entity_name@
            && ents[k].matching_text@ == gs[i].extracted_text@[j]@,
        forall|j2: int| 0 <= j2 < gs[i].extracted_text@.len() && j2 != j ==> gs[i].extracted_text@[j2]@ != gs[i].extracted_text@[j]@,
{
    let kinds = entity_kinds().filter(has_texts(ents));
    let kind = kinds[i];
    let texts = texts_for(ents, kind);
    let sv = string_views(gs[i].extracted_text@);
    assert(sv == texts);
    assert(sv[j] == gs[i].extracted_text@[j]@);
    assert(texts.contains(gs[i].extracted_text@[j]@));
    lemma_texts_for_from(ents, kind, gs[i].extracted_text@[j]@);
    lemma_texts_for_distinct(ents, kind);
    assert forall|j2: int| 0 <= j2 < gs[i].extracted_text@.len() && j2 != j implies gs[i].extracted_text@[j2]@ != gs[i].extracted_text@[j]@ by {
        assert(sv[j2] == gs[i].extracted_text@[j2]@);
    }
}

/// The texts found for a kind are distinct.
pub proof fn lemma_texts_for_distinct(ents: Seq<ExtractedEntity>, kind: EntityName)
    ensures
        texts_for(ents, kind).no_duplicates(),
    decreases ents.len(),
{
    if ents.len() > 0 {
        lemma_texts_for_distinct(ents.drop_last(), kind);
        let prev = texts_for(ents.drop_last(), kind);
        let x = ents.last();
        if x.entity_name == kind && !prev.contains(x.matching_text@) {
            let cur = prev.push(x.matching_text@);
            assert forall|a: int, b: int| 0 <= a < b < cur.len() implies cur[a] != cur[b] by {
                if b == prev.len() {
                    assert(cur[a] == prev[a]);
                }
            }
        }
    }
}

// ---------------------------------------------------------------------------
// Insights

/// Every insight among the nodes is the insight of a node that holds a
/// classification as relevant.
pub proof fn lemma_insights_of_relevant(e: Engine, ids: Seq<NodeId>, s: Seq<char>)
    requires
        insights_of(e, ids).contains(s),
    ensures
        exists|k: int| 0 <= k < ids.len() && e.node_map().contains_key(#[trigger] ids[k]) && {
            &&& e.node_map()[ids[k]].payload matches PayloadView::Classification(c)
            &&& c.is_relevant
            &&& c.insight_if_classified_as_relevant matches Some(t) && t@ == s
        },
    decreases ids.len(),
{
    if ids.len() > 0 {
        let rest = insights_of(e, ids.drop_last());
        if rest.contains(s) {
            lemma_insights_of_relevant(e, ids.drop_last(), s);
            let k = choose|k: int| 0 <= k < ids.drop_last().len() && e.node_map().contains_key(#[trigger] ids.drop_last()[k]) && {
                &&& e.node_map()[ids.drop_last()[k]].payload matches PayloadView::Classification(c)
                &&& c.is_relevant
                &&& c.insight_if_classified_as_relevant matches Some(t) && t@ == s
            };
            assert(ids[k] == ids.drop_last()[k]);
        } else {
            let last = ids.len() - 1;
            assert(insight_of(e, ids[last]) == Some(s)) by {
                let cur = insights_of(e, ids);
                let j = choose|j: int| 0 <= j < cur.len() && cur[j] == s;
                match insight_of(e, ids.last()) {
                    Some(x) => {
                        if !rest.contains(x) {
                            assert(j == rest.len());
                        }
                    },
                    None => {},
                }
            }
        }
    }
}

/// A conclusion is drawn only from relevant pages: every insight it uses is
/// the insight of a classification node that holds its page as relevant;
/// pages classified as not relevant contribute nothing.
pub proof fn law_insights_only_from_relevant(e: Engine, s: Seq<char>)
    requires
        insights(e).contains(s),
    ensures
        exists|id: NodeId| e.node_map().contains_key(id) && {
            &&& e.node_map()[id].labels.contains(NodeLabel::Classification)
            &&& e.node_map()[id].payload matches PayloadView::Classification(c)
            &&& c.is_relevant
            &&& c.insight_if_classified_as_relevant matches Some(t) && t@ == s
        },
{
    let ids = labelled_ids(&e, NodeLabel::Classification);
    lemma_insights_of_relevant(e, ids, s);
    lemma_ids_with_label(e.node_order(), e.node_map(), NodeLabel::Classification);
    let k = choose|k: int| 0 <= k < ids.len() && e.node_map().contains_key(#[trigger] ids[k]) && {
        &&& e.node_map()[ids[k]].payload matches PayloadView::Classification(c)
        &&& c.is_relevant
        &&& c.insight_if_classified_as_relevant matches Some(t) && t@ == s
    };
    assert(ids.contains(ids[k]));
}

/// The insight of each listed node is among the insights of the nodes.
pub proof fn lemma_insights_of_has(e: Engine, ids: Seq<NodeId>, k: int)
    requires
        0 <= k < ids.len(),
        insight_of(e, ids[k]) is Some,
    ensures
        insights_of(e, ids).contains(insight_of(e, ids[k])->0),
    decreases ids.len(),
{
    let rest = insights_of(e, ids.drop_last());
    let v = insight_of(e, ids[k])->0;
    if k < ids.len() - 1 {
        assert(ids.drop_last()[k] == ids[k]);
        lemma_insights_of_has(e, ids.drop_last(), k);
        let j = choose|j: int| 0 <= j < rest.len() && rest[j] == v;
        let cur = insights_of(e, ids);
        if cur != rest {
            assert(cur[j] == v);
        }
    } else {
        if !rest.contains(v) {
            assert(insights_of(e, ids)[rest.len() as int] == v);
        }
    }
}

/// Every relevant page counts: the insight of each classification node that
/// holds its page as relevant, when the insight is not blank, is among the
/// insights a conclusion is drawn from.
pub proof fn law_relevant_insights_used(e: Engine, id: NodeId)
    requires
        e.wf(),
        e.node_map().contains_key(id),
        e.node_map()[id].labels.contains(NodeLabel::Classification),
        e.node_map()[id].payload is Classification,
        e.node_map()[id].payload->Classification_0.is_relevant,
        e.node_map()[id].payload->Classification_0.insight_if_classified_as_relevant is Some,
        trimmed(e.node_map()[id].payload->Classification_0.insight_if_classified_as_relevant->Some_0@).len() > 0,
    ensures
        insights(e).contains(
            e.node_map()[id].payload->Classification_0.insight_if_classified_as_relevant->Some_0@,
        ),
{
    e.lemma_wf();
    let ids = labelled_ids(&e, NodeLabel::Classification);
    lemma_ids_with_label(e.node_order(), e.node_map(), NodeLabel::Classification);
    assert(ids.contains(id));
    let k = choose|k: int| 0 <= k < ids.len() && ids[k] == id;
    lemma_insights_of_has(e, ids, k);
}

// ---------------------------------------------------------------------------
// Selection

/// The picked nodes of a prefix stay picked.
pub proof fn lemma_pick_keeps(ids: Seq<NodeId>, nodes: Map<NodeId, NodeItemView>, done: bool, now: i64, x: NodeId)
    requires
        ids.len() > 0,
        pick(ids.drop_last(), nodes, done, now).0.contains(x),
    ensures
        pick(ids, nodes, done, now).0.contains(x),
{
    let prev = pick(ids.drop_last(), nodes, done, now).0;
    let cur = pick(ids, nodes, done, now).0;
    if cur != prev {
        let j = choose|j: int| 0 <= j < prev.len() && prev[j] == x;
        assert(cur[j] == x);
    }
}

/// A node that had an error and is otherwise free to run is picked once the
/// retry wait is over.
pub proof fn lemma_pick_retries(ids: Seq<NodeId>, nodes: Map<NodeId, NodeItemView>, done: bool, now: i64, x: NodeId)
    requires
        ids.contains(x),
        !nodes[x].flags.has(NodeFlags { bits: IS_PROCESSED_BIT }),
        !nodes[x].flags.has(NodeFlags { bits: IS_REQUESTING_BIT }),
        !nodes[x].flags.has(NodeFlags { bits: IS_BLOCKED_BIT }),
        nodes[x].flags.has(NodeFlags { bits: HAD_ERROR_BIT }),
        now - nodes[x].written_at > RETRY_AFTER_ERROR_MILLIS,
        !(done && (nodes[x].labels.contains(NodeLabel::WebPage) || nodes[x].labels.contains(NodeLabel::WebSearch))),
    ensures
        pick(ids, nodes, done, now).0.contains(x),
    decreases ids.len(),
{
    if ids.last() == x {
        let prev = pick(ids.drop_last(), nodes, done, now).0;
        assert(pick(ids, nodes, done, now).0 == prev.push(x));
        assert(prev.push(x)[prev.len() as int] == x);
    } else {
        let j = choose|j: int| 0 <= j < ids.len() && ids[j] == x;
        assert(ids.drop_last()[j] == x);
        lemma_pick_retries(ids.drop_last(), nodes, done, now, x);
        lemma_pick_keeps(ids, nodes, done, now, x);
    }
}

/// Errors are retried: a node that had an error, is not processed,
/// requesting or blocked, is not a web page or web search waiting on a
/// processed objective, and was last written more than a minute (60000 ms)
/// before `now` is among the nodes picked.
pub proof fn law_errors_are_retried(e: &Engine, now: i64, r: Seq<NodeId>, x: NodeId)
    requires
        e.wf(),
        sorted_pick(e, now, r),
        e.node_map().contains_key(x),
        !e.node_map()[x].flags.has(NodeFlags { bits: IS_PROCESSED_BIT }),
        !e.node_map()[x].flags.has(NodeFlags { bits: IS_REQUESTING_BIT }),
        !e.node_map()[x].flags.has(NodeFlags { bits: IS_BLOCKED_BIT }),
        e.node_map()[x].flags.has(NodeFlags { bits: HAD_ERROR_BIT }),
        now - e.node_map()[x].written_at > 60000,
        !(objective_processed(e) && (e.node_map()[x].labels.contains(NodeLabel::WebPage)
            || e.node_map()[x].labels.contains(NodeLabel::WebSearch))),
    ensures
        r.contains(x),
{
    e.lemma_wf();
    lemma_pick_retries(e.node_order(), e.node_map(), objective_processed(e), now, x);
}

// ---------------------------------------------------------------------------
// Page metadata

/// Tags and keywords are collected: recording a tags or keywords attribute
/// (one that names none of the fields matched before it) keeps the earlier
/// tags, in order, and adds the new content after them; no other field
/// changes.
pub proof fn law_tags_collect(m: WebMetadataView, a: Seq<char>, c: Seq<char>, image: Result<Seq<char>, PiErrorKind>)
    requires
        has_substring(a, "tags"@) || has_substring(a, "keywords"@),
        !has_substring(a, "url"@),
        !has_substring(a, "site_name"@),
        !has_substring(a, "favicon"@),
        !has_substring(a, "image"@),
        !has_substring(a, "thumbnail"@),
        !has_substring(a, "title"@),
        !has_substring(a, "description"@),
    ensures
        metadata_with(m, a, c, image) matches Ok(Some(m2)) && {
            let prev = match m.tags {
                Some(t) => t,
                None => Seq::<Seq<char>>::empty(),
            };
            &&& m2.tags matches Some(t) && t.len() == prev.len() + 1 && t.subrange(0, prev.len() as int) == prev
                && t[prev.len() as int] == c
            &&& WebMetadataView { tags: m.tags, ..m2 } == m
        },
{
    let prev = match m.tags {
        Some(t) => t,
        None => Seq::<Seq<char>>::empty(),
    };
    let m2 = metadata_with(m, a, c, image)->Ok_0->Some_0;
    let t = m2.tags->Some_0;
    assert(t.subrange(0, prev.len() as int) =~= prev);
}

} // verus!
