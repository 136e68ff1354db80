use vstd::prelude::*;
use crate::engine::graph::{
    first_where, ids_with_label, labelled_ids, lemma_first_where_at, Engine,
};
use crate::engine::labels::{NodeId, NodeLabel};
use crate::engine::node::{NodeItemView, PayloadView};
use crate::engine::ops::existing_node;
use crate::entity::search::saved_search::{search_term_by_text, search_term_pred};
use crate::entity::web::domain::{domain_by_name, domain_named_pred, is_domain_named};

verus! {

/// When `first_where` finds nothing, no ID of the sequence satisfies the test.
pub proof fn lemma_first_where_none_inv(ids: Seq<NodeId>, p: spec_fn(NodeId) -> bool)
    requires
        first_where(ids, p) == None::<NodeId>,
    ensures
        forall|j: int| 0 <= j < ids.len() ==> !p(#[trigger] ids[j]),
    decreases ids.len(),
{
    if ids.len() > 0 {
        let rest = ids.subrange(1, ids.len() as int);
        lemma_first_where_none_inv(rest, p);
        assert forall|j: int| 0 <= j < ids.len() implies !p(#[trigger] ids[j]) by {
            if j > 0 {
                assert(ids[j] == rest[j - 1]);
            }
        }
    }
}

/// `ids_with_label` only reads the labels of the nodes listed.
pub proof fn lemma_ids_with_label_frame(ids: Seq<NodeId>, m0: Map<NodeId, NodeItemView>, m1: Map<NodeId, NodeItemView>, label: NodeLabel)
    requires
        forall|j: int| 0 <= j < ids.len() ==> m0[#[trigger] ids[j]].labels == m1[ids[j]].labels,
    ensures
        ids_with_label(ids, m0, label) == ids_with_label(ids, m1, label),
    decreases ids.len(),
{
    if ids.len() > 0 {
        let prev = ids.drop_last();
        assert forall|j: int| 0 <= j < prev.len() implies m0[#[trigger] prev[j]].labels == m1[prev[j]].labels by {
            assert(prev[j] == ids[j]);
        }
        lemma_ids_with_label_frame(prev, m0, m1, label);
        assert(m0[ids[ids.len() - 1]].labels == m1[ids[ids.len() - 1]].labels);
    }
}

/// The labelled IDs of a graph to which one fresh node, holding the label,
/// was appended end with that node.
pub proof fn lemma_labelled_ids_append(e0: &Engine, e1: &Engine, id: NodeId, nv: NodeItemView, label: NodeLabel)
    requires
        e0.wf(),
        !e0.node_map().contains_key(id),
        e1.node_map() == e0.node_map().insert(id, nv),
        e1.node_order() == e0.node_order().push(id),
        nv.labels.contains(label),
    ensures
        labelled_ids(e1, label) == labelled_ids(e0, label).push(id),
{
    e0.lemma_wf();
    let o0 = e0.node_order();
    assert forall|j: int| 0 <= j < o0.len() implies e0.node_map()[#[trigger] o0[j]].labels == e1.node_map()[o0[j]].labels by {
        assert(o0.contains(o0[j]));
    }
    lemma_ids_with_label_frame(o0, e0.node_map(), e1.node_map(), label);
    assert(e1.node_order().drop_last() =~= o0);
}

/// Adding a domain node with a name that no domain node had makes that node
/// the one found for the name.
pub proof fn lemma_domain_found_after_add(e0: &Engine, e1: &Engine, id: NodeId, nv: NodeItemView, name: Seq<char>)
    requires
        e0.wf(),
        !e0.node_map().contains_key(id),
        e1.node_map() == e0.node_map().insert(id, nv),
        e1.node_order() == e0.node_order().push(id),
        is_domain_named(nv, name),
        domain_by_name(e0, name) == None::<NodeId>,
    ensures
        domain_by_name(e1, name) == Some(id),
{
    e0.lemma_wf();
    lemma_labelled_ids_append(e0, e1, id, nv, NodeLabel::DomainName);
    let l0 = labelled_ids(e0, NodeLabel::DomainName);
    let l1 = labelled_ids(e1, NodeLabel::DomainName);
    let p0 = domain_named_pred(e0, name);
    let p1 = domain_named_pred(e1, name);
    lemma_first_where_none_inv(l0, p0);
    crate::engine::graph::lemma_ids_with_label(e0.node_order(), e0.node_map(), NodeLabel::DomainName);
    assert forall|j: int| 0 <= j < l0.len() implies !p1(#[trigger] l1[j]) by {
        assert(l1[j] == l0[j]);
        assert(l0.contains(l0[j]));
        assert(e0.node_order().contains(l0[j]));
        assert(l0[j] != id);
        assert(!p0(l0[j]));
    }
    assert(l1[l0.len() as int] == id);
    lemma_first_where_at(l1, p1, l0.len() as int);
}

/// Adding a search term node with a text that no search term node had makes
/// that node the one found for the text.
pub proof fn lemma_search_term_found_after_add(e0: &Engine, e1: &Engine, id: NodeId, nv: NodeItemView, term: Seq<char>)
    requires
        e0.wf(),
        !e0.node_map().contains_key(id),
        e1.node_map() == e0.node_map().insert(id, nv),
        e1.node_order() == e0.node_order().push(id),
        nv.labels.contains(NodeLabel::SearchTerm),
        nv.payload matches PayloadView::Text(t) && t@ == term,
        search_term_by_text(e0, term) == None::<NodeId>,
    ensures
        search_term_by_text(e1, term) == Some(id),
{
    e0.lemma_wf();
    lemma_labelled_ids_append(e0, e1, id, nv, NodeLabel::SearchTerm);
    let l0 = labelled_ids(e0, NodeLabel::SearchTerm);
    let l1 = labelled_ids(e1, NodeLabel::SearchTerm);
    let p0 = search_term_pred(e0, term);
    let p1 = search_term_pred(e1, term);
    lemma_first_where_none_inv(l0, p0);
    crate::engine::graph::lemma_ids_with_label(e0.node_order(), e0.node_map(), NodeLabel::SearchTerm);
    assert forall|j: int| 0 <= j < l0.len() implies !p1(#[trigger] l1[j]) by {
        assert(l1[j] == l0[j]);
        assert(l0.contains(l0[j]));
        assert(e0.node_order().contains(l0[j]));
        assert(l0[j] != id);
        assert(!p0(l0[j]));
    }
    assert(l1[l0.len() as int] == id);
    lemma_first_where_at(l1, p1, l0.len() as int);
}

/// A node that `get_or_add_node` added is fresh: the lookup found nothing,
/// the ID was no node's, and only that node was added.
pub proof fn lemma_added_node(e0: &Engine, e1: &Engine, payload: PayloadView, labels: Seq<NodeLabel>, related: Option<NodeId>, id: NodeId)
    requires
        e0.wf(),
        get_or_add_effect(e0, e1, payload, labels, true, related, Ok::<ExistingOrNewNodeId, PiError>(ExistingOrNewNodeId::New(id))),
    ensures
        existing_node(e0, labels, payload, related) == Ok::<Option<NodeId>, PiErrorKind>(None),
        !e0.node_map().contains_key(id),
        e1.node_map() == e0.node_map().insert(id, e1.node_map()[id]),
        e1.node_map()[id].labels == labels,
        e1.node_map()[id].payload == payload,
        e1.node_order() == e0.node_order().push(id),
        e1.edge_map() == e0.edge_map(),
        e1.edge_order() == e0.edge_order(),
{
    e0.lemma_wf();
}

/// Get-or-add keeps one node per domain name: once `get_or_add_node` has
/// added a node for a domain name, the same request finds that node instead
/// of adding another.
pub proof fn law_domain_added_once(e0: &Engine, e1: &Engine, id: NodeId, labels: Seq<NodeLabel>, payload: PayloadView)
    requires
        e0.wf(),
        labels.contains(NodeLabel::DomainName),
        payload is Text,
        get_or_add_effect(e0, e1, payload, labels, true, None, Ok::<ExistingOrNewNodeId, PiError>(ExistingOrNewNodeId::New(id))),
    ensures
        existing_node(e1, labels, payload, None) == Ok::<Option<NodeId>, PiErrorKind>(Some(id)),
{
    lemma_added_node(e0, e1, payload, labels, None, id);
    lemma_domain_found_after_add(e0, e1, id, e1.node_map()[id], payload->Text_0@);
}

/// Get-or-add keeps one node per search term: once `get_or_add_node` has
/// added a node for a search term text (with no domain or link label beside
/// it), the same request finds that node.
pub proof fn law_search_term_added_once(e0: &Engine, e1: &Engine, id: NodeId, labels: Seq<NodeLabel>, payload: PayloadView)
    requires
        e0.wf(),
        labels.contains(NodeLabel::SearchTerm),
        !labels.contains(NodeLabel::DomainName),
        !labels.contains(NodeLabel::Link),
        payload is Text,
        get_or_add_effect(e0, e1, payload, labels, true, None, Ok::<ExistingOrNewNodeId, PiError>(ExistingOrNewNodeId::New(id))),
    ensures
        existing_node(e1, labels, payload, None) == Ok::<Option<NodeId>, PiErrorKind>(Some(id)),
{
    lemma_added_node(e0, e1, payload, labels, None, id);
    lemma_search_term_found_after_add(e0, e1, id, e1.node_map()[id], payload->Text_0@);
}

} // verus!

verus! {

use crate::engine::fetching::{fetch_api_outcome, fetch_effect, fetch_outcome, FetchOutcome, MAX_OPEN_FETCH_REQUESTS};
use crate::engine::graph::{connected_ids, targets_with_label};
use crate::engine::labels::EdgeLabel;
use crate::engine::ops::connection_effect;
use crate::fetch::FetchRequestView;
use crate::error::PiResult;

/// An edge added to a list makes its target one of the targets with its
/// label.
pub proof fn lemma_targets_push(edges: Seq<(NodeId, EdgeLabel)>, x: NodeId, l: EdgeLabel)
    ensures
        targets_with_label(edges.push((x, l)), l).contains(x),
{
    let s = edges.push((x, l));
    assert(s.drop_last() =~= edges);
    let prev = targets_with_label(edges, l);
    if !prev.contains(x) {
        assert(prev.push(x)[prev.len() as int] == x);
    }
}

/// Adding an edge keeps every target the list had.
pub proof fn lemma_targets_push_keeps(edges: Seq<(NodeId, EdgeLabel)>, e: (NodeId, EdgeLabel), l: EdgeLabel, y: NodeId)
    requires
        targets_with_label(edges, l).contains(y),
    ensures
        targets_with_label(edges.push(e), l).contains(y),
{
    let s = edges.push(e);
    assert(s.drop_last() =~= edges);
    let prev = targets_with_label(edges, l);
    let j = choose|j: int| 0 <= j < prev.len() && prev[j] == y;
    if e.1 == l && !prev.contains(e.0) {
        assert(prev.push(e.0)[j] == y);
    }
}

/// Edges come in pairs: once two nodes are connected, each is connected to
/// the other under its own label, and every connection the graph had is
/// kept.
pub proof fn law_connection_is_paired(e0: &Engine, e1: &Engine, ids: (NodeId, NodeId), labels: (EdgeLabel, EdgeLabel))
    requires
        connection_effect(e0, e1, ids, labels),
    ensures
        connected_ids(e1, ids.0, labels.0).contains(ids.1),
        connected_ids(e1, ids.1, labels.1).contains(ids.0),
        forall|a: NodeId, l: EdgeLabel, x: NodeId| #[trigger] connected_ids(e0, a, l).contains(x) ==> connected_ids(e1, a, l).contains(x),
{
    let (a, b) = ids;
    let (la, lb) = labels;
    let m0 = e0.edge_map();
    let w = e1.edge_map()[b].written_at;
    let m1 = crate::engine::graph::edges_with_edge(m0, a, b, la, w);
    let m2 = e1.edge_map();
    assert(m2 == crate::engine::graph::edges_with_edge(m1, b, a, lb, w));
    let xa = crate::engine::graph::with_edge(m0, a, b, la);
    if m0.contains_key(a) {
        lemma_targets_push(m0[a].edges, b, la);
    } else {
        assert(xa =~= Seq::<(NodeId, EdgeLabel)>::empty().push((b, la)));
        lemma_targets_push(Seq::empty(), b, la);
    }
    assert(targets_with_label(xa, la).contains(b));
    if a == b {
        assert(m2[a].edges == xa.push((a, lb)));
        lemma_targets_push_keeps(xa, (a, lb), la, b);
    } else {
        assert(m2[a].edges == xa);
    }
    let xb = crate::engine::graph::with_edge(m1, b, a, lb);
    if m1.contains_key(b) {
        lemma_targets_push(m1[b].edges, a, lb);
    } else {
        assert(xb =~= Seq::<(NodeId, EdgeLabel)>::empty().push((a, lb)));
        lemma_targets_push(Seq::empty(), a, lb);
    }
    assert(m2[b].edges == xb);
    assert forall|c: NodeId, l: EdgeLabel, x: NodeId| #[trigger] connected_ids(e0, c, l).contains(x) implies connected_ids(e1, c, l).contains(x) by {
        assert(m0.contains_key(c));
        if c == a {
            lemma_targets_push_keeps(m0[a].edges, (b, la), l, x);
            if a == b {
                lemma_targets_push_keeps(xa, (a, lb), l, x);
            }
        } else if c == b {
            assert(m1[b] == m0[b]);
            lemma_targets_push_keeps(m0[b].edges, (a, lb), l, x);
        } else {
            assert(m2[c] == m0[c]);
        }
    }
}

/// The engine never has more requests open than its limit: a fetch, or a
/// request to an outside API, made while the open requests are within the
/// limit leaves them within the limit.
pub proof fn law_open_requests_within_limit(e0: &Engine, e1: &Engine, request: FetchRequestView, r: PiResult<()>, api: bool)
    requires
        e0.open_fetch_requests() <= MAX_OPEN_FETCH_REQUESTS,
        api ==> fetch_effect(e0, e1, request, fetch_api_outcome(e0, request), r),
        !api ==> fetch_effect(e0, e1, request, fetch_outcome(e0, request), r),
    ensures
        e1.open_fetch_requests() <= MAX_OPEN_FETCH_REQUESTS,
{
    let outcome = if api {
        fetch_api_outcome(e0, request)
    } else {
        fetch_outcome(e0, request)
    };
    match outcome {
        FetchOutcome::Send(_) => {
            assert(e0.open_fetch_requests() < MAX_OPEN_FETCH_REQUESTS);
        },
        _ => {},
    }
}

} // verus!

verus! {

use crate::engine::processing::{has_skip_flag, objective_processed, pick, sorted_pick};
use crate::entity::conclusion::{insights, insights_of};
use crate::entity::pixlie::{enabled_in, switched_off, switches_off, tools_switched_off};
use crate::entity::web::metadata::WebMetadataView;
use crate::entity::web::scraper::metadata_with;
use crate::error::PiErrorKind;
use crate::text::has_substring;

/// Once the crawler and the classifier are switched off, as a conclusion
/// does, no node that holds crawler settings under the crawler's label, or
/// classifier settings under the classifier's, is switched on.
pub proof fn law_switched_off_tools_stay_off(e0: &Engine, e1: &Engine)
    requires
        tools_switched_off(e0, e1, seq![NodeLabel::CrawlerSettings, NodeLabel::ClassifierSettings]),
    ensures
        forall|k: NodeId| #[trigger] e1.node_map().contains_key(k) && e1.node_map()[k].labels.contains(NodeLabel::CrawlerSettings)
            && e1.node_map()[k].payload is CrawlerSettings ==> enabled_in(e1.node_map()[k].payload) == Some(false),
        forall|k: NodeId| #[trigger] e1.node_map().contains_key(k) && e1.node_map()[k].labels.contains(NodeLabel::ClassifierSettings)
            && e1.node_map()[k].payload is ClassifierSettings ==> enabled_in(e1.node_map()[k].payload) == Some(false),
{
    let ls = seq![NodeLabel::CrawlerSettings, NodeLabel::ClassifierSettings];
    assert(ls.contains(NodeLabel::CrawlerSettings)) by {
        assert(ls[0] == NodeLabel::CrawlerSettings);
    }
    assert(ls.contains(NodeLabel::ClassifierSettings)) by {
        assert(ls[1] == NodeLabel::ClassifierSettings);
    }
    assert forall|k: NodeId| #[trigger] e1.node_map().contains_key(k) && e1.node_map()[k].labels.contains(NodeLabel::CrawlerSettings)
        && e1.node_map()[k].payload is CrawlerSettings implies enabled_in(e1.node_map()[k].payload) == Some(false) by {
        assert(e0.node_map().contains_key(k));
        let n = e0.node_map()[k];
        if !switches_off(ls, n) {
            assert(e1.node_map()[k] == n);
        }
    }
    assert forall|k: NodeId| #[trigger] e1.node_map().contains_key(k) && e1.node_map()[k].labels.contains(NodeLabel::ClassifierSettings)
        && e1.node_map()[k].payload is ClassifierSettings implies enabled_in(e1.node_map()[k].payload) == Some(false) by {
        assert(e0.node_map().contains_key(k));
        let n = e0.node_map()[k];
        if !switches_off(ls, n) {
            assert(e1.node_map()[k] == n);
        }
    }
}

/// The first page URL, title and favicon recorded in a page's metadata are
/// kept: a later value for a field that is already set changes nothing.
pub proof fn law_first_metadata_kept(m: WebMetadataView, a: Seq<char>, c: Seq<char>, image: Result<Seq<char>, PiErrorKind>)
    ensures
        has_substring(a, "url"@) && m.url is Some ==> metadata_with(m, a, c, image) == Ok::<Option<WebMetadataView>, PiErrorKind>(None),
        !has_substring(a, "url"@) && !has_substring(a, "site_name"@) && has_substring(a, "favicon"@) && m.favicon is Some
            ==> metadata_with(m, a, c, image) == Ok::<Option<WebMetadataView>, PiErrorKind>(None),
        !has_substring(a, "url"@) && !has_substring(a, "site_name"@) && !has_substring(a, "favicon"@) && !has_substring(
            a,
            "image"@,
        ) && !has_substring(a, "thumbnail"@) && has_substring(a, "title"@) && m.title is Some ==> metadata_with(m, a, c, image)
            == Ok::<Option<WebMetadataView>, PiErrorKind>(None),
{
}

/// The insights found among nodes are distinct.
pub proof fn lemma_insights_distinct(e: Engine, ids: Seq<NodeId>)
    ensures
        insights_of(e, ids).no_duplicates(),
    decreases ids.len(),
{
    if ids.len() > 0 {
        lemma_insights_distinct(e, ids.drop_last());
        let rest = insights_of(e, ids.drop_last());
        match crate::entity::conclusion::insight_of(e, ids.last()) {
            Some(x) => {
                if !rest.contains(x) {
                    assert forall|i: int, j: int| 0 <= i < j < rest.push(x).len() implies rest.push(x)[i] != rest.push(x)[j] by {
                        if j == rest.len() {
                            assert(rest[i] == rest.push(x)[i]);
                        }
                    }
                }
            },
            None => {},
        }
    }
}

/// The insights that a conclusion is drawn from are distinct.
pub proof fn law_insights_distinct(e: Engine)
    ensures
        insights(e).no_duplicates(),
{
    lemma_insights_distinct(e, crate::engine::graph::labelled_ids(&e, NodeLabel::Classification));
}

/// No node picked for processing is processed, requesting or blocked.
pub proof fn lemma_pick_skips_flagged(ids: Seq<NodeId>, nodes: Map<NodeId, NodeItemView>, done: bool, now: i64, x: NodeId)
    requires
        pick(ids, nodes, done, now).0.contains(x),
    ensures
        !has_skip_flag(nodes[x]),
    decreases ids.len(),
{
    if ids.len() > 0 {
        let prev = pick(ids.drop_last(), nodes, done, now).0;
        if prev.contains(x) {
            lemma_pick_skips_flagged(ids.drop_last(), nodes, done, now, x);
        } else {
            let cur = pick(ids, nodes, done, now).0;
            assert(cur == prev || cur == prev.push(ids.last()));
            if cur == prev.push(ids.last()) {
                let j = choose|j: int| 0 <= j < cur.len() && cur[j] == x;
                if j < prev.len() {
                    assert(prev[j] == x);
                }
                assert(x == ids.last());
            }
        }
    }
}

/// A round of processing never picks a node that is processed, requesting
/// or blocked.
pub proof fn law_selection_skips_flagged(e: &Engine, now: i64, r: Seq<NodeId>, x: NodeId)
    requires
        sorted_pick(e, now, r),
        r.contains(x),
    ensures
        !has_skip_flag(e.node_map()[x]),
{
    lemma_pick_skips_flagged(e.node_order(), e.node_map(), objective_processed(e), now, x);
}

} // verus!

verus! {

use crate::engine::labels::CommonEdgeLabels;
use crate::engine::node::ExistingOrNewNodeId;
use crate::engine::ops::get_or_add_effect;
use crate::entity::web::link::{domain_labels, is_link_payload, link_add_effect, link_find, link_pred, opt_str_view};
use crate::error::PiError;
use crate::web_url::url_parsed;

/// When `x` is in the sequence and passes `p`, and every other ID fails it,
/// the first match is `x`.
pub proof fn lemma_first_where_only(ids: Seq<NodeId>, p: spec_fn(NodeId) -> bool, x: NodeId)
    requires
        ids.contains(x),
        p(x),
        forall|j: int| 0 <= j < ids.len() && ids[j] != x ==> !p(#[trigger] ids[j]),
    ensures
        first_where(ids, p) == Some(x),
    decreases ids.len(),
{
    if ids[0] != x {
        let rest = ids.subrange(1, ids.len() as int);
        let k = choose|k: int| 0 <= k < ids.len() && ids[k] == x;
        assert(k > 0);
        assert(rest[k - 1] == x);
        assert forall|j: int| 0 <= j < rest.len() && rest[j] != x implies !p(#[trigger] rest[j]) by {
            assert(rest[j] == ids[j + 1]);
        }
        lemma_first_where_only(rest, p, x);
    }
}

/// Adding an edge with the label adds its target to the targets with that
/// label, unless it was one of them already.
pub proof fn lemma_targets_push_shape(edges: Seq<(NodeId, EdgeLabel)>, x: NodeId, l: EdgeLabel)
    ensures
        targets_with_label(edges.push((x, l)), l) == if targets_with_label(edges, l).contains(x) {
            targets_with_label(edges, l)
        } else {
            targets_with_label(edges, l).push(x)
        },
{
    assert(edges.push((x, l)).drop_last() =~= edges);
}

/// Get-or-add keeps one link node per domain, path and query: once
/// `get_or_add_node` has added a link node under a domain and the domain
/// owns it, as `Link::add` does, the same request finds that
/// node instead of adding another. This holds of the links whose URL on
/// their domain reads back as their own path and query.
pub proof fn law_link_added_once(e0: &Engine, e1: &Engine, e2: &Engine, id: NodeId, did: NodeId, labels: Seq<NodeLabel>, payload: PayloadView)
    requires
        e0.wf(),
        labels.contains(NodeLabel::Link),
        !labels.contains(NodeLabel::DomainName),
        payload is Link,
        get_or_add_effect(e0, e1, payload, labels, true, Some(did), Ok::<ExistingOrNewNodeId, PiError>(ExistingOrNewNodeId::New(id))),
        connection_effect(e1, e2, (did, id), (CommonEdgeLabels::OwnerOf, CommonEdgeLabels::BelongsTo)),
        e0.node_map()[did].payload matches PayloadView::Text(d) && url_parsed("https://"@ + d@ + payload->Link_0.spec_full_link()) matches Some(p)
            && p.1 == payload->Link_0.path@ && p.2 == opt_str_view(payload->Link_0.query),
    ensures
        existing_node(e2, labels, payload, Some(did)) == Ok::<Option<NodeId>, PiErrorKind>(Some(id)),
{
    let l = payload->Link_0;
    let url = l.spec_full_link();
    lemma_added_node(e0, e1, payload, labels, Some(did), id);
    assert(e0.node_map().contains_key(did));
    assert(did != id);
    let dn = e0.node_map()[did];
    let d = dn.payload->Text_0;
    let p = url_parsed("https://"@ + d@ + url)->Some_0;
    let p0 = crate::entity::web::link::link_pred(e0, p.1, p.2);
    let p2 = crate::entity::web::link::link_pred(e2, p.1, p.2);
    let t0 = connected_ids(e0, did, CommonEdgeLabels::OwnerOf);
    let t2 = connected_ids(e2, did, CommonEdgeLabels::OwnerOf);
    assert(first_where(t0, p0) == None::<NodeId>);
    lemma_first_where_none_inv(t0, p0);
    let m0 = e0.edge_map();
    assert(e1.edge_map() == m0);
    let w = e2.edge_map()[id].written_at;
    let m1 = crate::engine::graph::edges_with_edge(m0, did, id, CommonEdgeLabels::OwnerOf, w);
    assert(e2.edge_map() == crate::engine::graph::edges_with_edge(m1, id, did, CommonEdgeLabels::BelongsTo, w));
    assert(e2.edge_map()[did] == m1[did]);
    let base = if m0.contains_key(did) {
        m0[did].edges
    } else {
        Seq::<(NodeId, EdgeLabel)>::empty()
    };
    assert(m1[did].edges =~= base.push((id, CommonEdgeLabels::OwnerOf)));
    assert(t0 == targets_with_label(base, CommonEdgeLabels::OwnerOf));
    lemma_targets_push_shape(base, id, CommonEdgeLabels::OwnerOf);
    assert(t2.contains(id)) by {
        if t0.contains(id) {
        } else {
            assert(t2[t0.len() as int] == id);
        }
    }
    assert(e2.node_map() == e0.node_map().insert(id, e2.node_map()[id]));
    assert(p2(id));
    assert forall|j: int| 0 <= j < t2.len() && t2[j] != id implies !p2(#[trigger] t2[j]) by {
        assert(t2[j] == t0[j]);
        assert(!p0(t0[j]));
    }
    lemma_first_where_only(t2, p2, id);
}

/// Only requests that create nodes or edges change the graph: the answer to
/// any other API request leaves the engine as it was.
pub proof fn law_reads_leave_graph_unchanged(old: &Engine, new: &Engine, p: crate::engine::api::EngineRequestPayload, r: PiResult<crate::engine::api::EngineResponsePayload>)
    requires
        crate::engine::requests::request_answered(old, new, p, r),
        !(p is CreateNode || p is CreateEdge),
    ensures
        crate::engine::ops::unchanged(new, old),
{
}

/// Tests that agree on every ID of a sequence find the same first match.
pub proof fn lemma_first_where_same(ids: Seq<NodeId>, p: spec_fn(NodeId) -> bool, q: spec_fn(NodeId) -> bool)
    requires
        forall|j: int| 0 <= j < ids.len() ==> p(#[trigger] ids[j]) == q(ids[j]),
    ensures
        first_where(ids, p) == first_where(ids, q),
    decreases ids.len(),
{
    if ids.len() > 0 {
        let rest = ids.subrange(1, ids.len() as int);
        assert forall|j: int| 0 <= j < rest.len() implies p(#[trigger] rest[j]) == q(rest[j]) by {
            assert(rest[j] == ids[j + 1]);
        }
        lemma_first_where_same(rest, p, q);
    }
}

/// A first match found stays the first match when an ID is appended.
pub proof fn lemma_first_where_push_found(ids: Seq<NodeId>, p: spec_fn(NodeId) -> bool, x: NodeId)
    requires
        first_where(ids, p) is Some,
    ensures
        first_where(ids.push(x), p) == first_where(ids, p),
    decreases ids.len(),
{
    let t = ids.push(x);
    assert(t[0] == ids[0]);
    if !p(ids[0]) {
        let rest = ids.subrange(1, ids.len() as int);
        assert(t.subrange(1, t.len() as int) =~= rest.push(x));
        lemma_first_where_push_found(rest, p, x);
    }
}

/// The first match is an ID of the sequence that passes the test.
pub proof fn lemma_first_where_some(ids: Seq<NodeId>, p: spec_fn(NodeId) -> bool)
    requires
        first_where(ids, p) is Some,
    ensures
        ids.contains(first_where(ids, p)->0),
        p(first_where(ids, p)->0),
    decreases ids.len(),
{
    if !p(ids[0]) {
        let rest = ids.subrange(1, ids.len() as int);
        lemma_first_where_some(rest, p);
        let k = choose|k: int| 0 <= k < rest.len() && rest[k] == first_where(rest, p)->0;
        assert(ids[k + 1] == rest[k]);
    } else {
        assert(ids[0] == first_where(ids, p)->0);
    }
}

/// Adding a node without the domain label changes no lookup of a domain by
/// name.
pub proof fn lemma_domain_by_name_after_other_add(e0: &Engine, e1: &Engine, id: NodeId, name: Seq<char>)
    requires
        e0.wf(),
        !e0.node_map().contains_key(id),
        e1.node_map() == e0.node_map().insert(id, e1.node_map()[id]),
        e1.node_order() == e0.node_order().push(id),
        !e1.node_map()[id].labels.contains(NodeLabel::DomainName),
    ensures
        domain_by_name(e1, name) == domain_by_name(e0, name),
{
    e0.lemma_wf();
    let o0 = e0.node_order();
    assert(e1.node_order().drop_last() =~= o0);
    assert forall|j: int| 0 <= j < o0.len() implies e0.node_map()[#[trigger] o0[j]].labels == e1.node_map()[o0[j]].labels by {
        assert(o0.contains(o0[j]));
    }
    lemma_ids_with_label_frame(o0, e0.node_map(), e1.node_map(), NodeLabel::DomainName);
    let l0 = labelled_ids(e0, NodeLabel::DomainName);
    assert(labelled_ids(e1, NodeLabel::DomainName) == l0);
    crate::engine::graph::lemma_ids_with_label(o0, e0.node_map(), NodeLabel::DomainName);
    assert forall|j: int| 0 <= j < l0.len() implies domain_named_pred(e1, name)(#[trigger] l0[j]) == domain_named_pred(e0, name)(l0[j]) by {
        assert(l0.contains(l0[j]));
        assert(o0.contains(l0[j]));
    }
    lemma_first_where_same(l0, domain_named_pred(e1, name), domain_named_pred(e0, name));
}

/// True when the URL parses to a domain, path and query, and the link of
/// that path and query, written after `https://` and the domain, parses
/// back to the same path and query.
pub open spec fn reads_back(url: Seq<char>) -> bool {
    url_parsed(url) matches Some(p) && p.0 matches Some(d)
        && url_parsed("https://"@ + d + crate::entity::web::link::full_link(p.1, p.2)) matches Some(q)
        && q.1 == p.1 && q.2 == p.2
}

/// A lookup of a link under a given domain node reads only the node map and
/// the edge lists.
pub proof fn lemma_link_find_unchanged(a: &Engine, b: &Engine, url: Seq<char>, did: NodeId)
    requires
        crate::engine::ops::unchanged(a, b),
    ensures
        link_find(a, url, Some(did)) == link_find(b, url, Some(did)),
{
    assert forall|pa: Seq<char>, qa: Option<Seq<char>>| #[trigger] link_pred(a, pa, qa) =~= link_pred(b, pa, qa) by {}
    assert(connected_ids(a, did, CommonEdgeLabels::OwnerOf) == connected_ids(b, did, CommonEdgeLabels::OwnerOf));
}

/// A link found under a domain node is still the one found after the
/// domain is connected to it as its owner again.
pub proof fn lemma_link_find_after_owner_edge(e0: &Engine, e1: &Engine, did: NodeId, lid: NodeId, url: Seq<char>)
    requires
        e0.wf(),
        link_find(e0, url, Some(did)) == Ok::<Option<NodeId>, PiErrorKind>(Some(lid)),
        connection_effect(e0, e1, (did, lid), (CommonEdgeLabels::OwnerOf, CommonEdgeLabels::BelongsTo)),
    ensures
        link_find(e1, url, Some(did)) == Ok::<Option<NodeId>, PiErrorKind>(Some(lid)),
{
    let dn = e0.node_map()[did];
    let d = dn.payload->Text_0;
    let p = url_parsed("https://"@ + d@ + url)->Some_0;
    let p0 = link_pred(e0, p.1, p.2);
    let p1 = link_pred(e1, p.1, p.2);
    assert(p1 =~= p0);
    let t0 = connected_ids(e0, did, CommonEdgeLabels::OwnerOf);
    let t1 = connected_ids(e1, did, CommonEdgeLabels::OwnerOf);
    assert(first_where(t0, p0) == Some(lid));
    lemma_first_where_some(t0, p0);
    assert(did != lid);
    let m0 = e0.edge_map();
    let w = e1.edge_map()[lid].written_at;
    let m1 = crate::engine::graph::edges_with_edge(m0, did, lid, CommonEdgeLabels::OwnerOf, w);
    assert(e1.edge_map() == crate::engine::graph::edges_with_edge(m1, lid, did, CommonEdgeLabels::BelongsTo, w));
    assert(e1.edge_map()[did] == m1[did]);
    let base = if m0.contains_key(did) {
        m0[did].edges
    } else {
        Seq::<(NodeId, EdgeLabel)>::empty()
    };
    assert(m1[did].edges =~= base.push((lid, CommonEdgeLabels::OwnerOf)));
    assert(t0 == targets_with_label(base, CommonEdgeLabels::OwnerOf));
    lemma_targets_push_shape(base, lid, CommonEdgeLabels::OwnerOf);
    if !t0.contains(lid) {
        lemma_first_where_push_found(t0, p0, lid);
    }
    assert(first_where(t1, p1) == Some(lid));
}

/// Adding a link twice adds it once: when `Link::add` has added or found the
/// link of a URL, a second `Link::add` of the same URL, with the same
/// arguments, returns the same link node and adds no node. This holds of
/// URLs whose link, written after `https://` and their domain, reads back as
/// the same path and query.
pub proof fn law_link_add_twice(e0: &Engine, e1: &Engine, e2: &Engine, url: Seq<char>, labels: Seq<NodeLabel>, extra: Seq<NodeLabel>, b: bool, r1: PiResult<NodeId>, r2: PiResult<NodeId>)
    requires
        e0.wf(),
        labels.contains(NodeLabel::Link),
        !labels.contains(NodeLabel::DomainName),
        reads_back(url),
        link_add_effect(e0, e1, url, labels, extra, b, r1),
        r1 is Ok,
        link_add_effect(e1, e2, url, labels, extra, b, r2),
    ensures
        r2 == r1,
        e2.node_map() == e1.node_map(),
        e2.node_order() == e1.node_order(),
{
    let parts = url_parsed(url)->0;
    let domain = parts.0->0;
    let dl = domain_labels(extra);
    let u = crate::entity::web::link::full_link(parts.1, parts.2);
    assert(dl.contains(NodeLabel::DomainName)) by {
        if !extra.contains(NodeLabel::DomainName) {
            assert(dl[extra.len() as int] == NodeLabel::DomainName);
        }
    }
    // the first call: the domain
    let (ea, d, dp) = choose|ea: Engine, d: PiResult<ExistingOrNewNodeId>, dp: PayloadView| {
        &&& ea.wf()
        &&& dp matches PayloadView::Text(t) && t@ == domain
        &&& get_or_add_effect(e0, &ea, dp, dl, b, None, d)
        &&& match d {
            Err(de) => r1 matches Err(e) && e.kind() == de.kind() && crate::engine::ops::unchanged(e1, &ea),
            Ok(did) => exists|eb: Engine, l: PiResult<ExistingOrNewNodeId>, lp: PayloadView| {
                &&& eb.wf()
                &&& is_link_payload(lp, parts.1, parts.2)
                &&& get_or_add_effect(&ea, &eb, lp, labels, true, Some(did.spec_node_id()), l)
                &&& match l {
                    Err(le) => r1 matches Err(e) && e.kind() == le.kind() && crate::engine::ops::unchanged(e1, &eb),
                    Ok(lid) => r1 == Ok::<NodeId, PiError>(lid.spec_node_id()) && connection_effect(
                        &eb,
                        e1,
                        (did.spec_node_id(), lid.spec_node_id()),
                        (CommonEdgeLabels::OwnerOf, CommonEdgeLabels::BelongsTo),
                    ),
                }
            },
        }
    };
    let did = d->Ok_0.spec_node_id();
    match d->Ok_0 {
        ExistingOrNewNodeId::Existing(x) => {
            assert(existing_node(e0, dl, dp, None) == Ok::<Option<NodeId>, PiErrorKind>(Some(x)));
            assert(domain_named_pred(&ea, domain) =~= domain_named_pred(e0, domain));
        },
        ExistingOrNewNodeId::New(x) => {
            lemma_added_node(e0, &ea, dp, dl, None, x);
            lemma_domain_found_after_add(e0, &ea, x, ea.node_map()[x], domain);
        },
    }
    assert(domain_by_name(&ea, domain) == Some(did));
    // the first call: the link
    let (eb, l, lp) = choose|eb: Engine, l: PiResult<ExistingOrNewNodeId>, lp: PayloadView| {
        &&& eb.wf()
        &&& is_link_payload(lp, parts.1, parts.2)
        &&& get_or_add_effect(&ea, &eb, lp, labels, true, Some(did), l)
        &&& match l {
            Err(le) => r1 matches Err(e) && e.kind() == le.kind() && crate::engine::ops::unchanged(e1, &eb),
            Ok(lid) => r1 == Ok::<NodeId, PiError>(lid.spec_node_id()) && connection_effect(
                &eb,
                e1,
                (did, lid.spec_node_id()),
                (CommonEdgeLabels::OwnerOf, CommonEdgeLabels::BelongsTo),
            ),
        }
    };
    let lid = l->Ok_0.spec_node_id();
    let lk = lp->Link_0;
    assert(lk.spec_full_link() == u);
    match l->Ok_0 {
        ExistingOrNewNodeId::Existing(x) => {
            assert(link_find(&ea, u, Some(did)) == Ok::<Option<NodeId>, PiErrorKind>(Some(x)));
            lemma_link_find_unchanged(&ea, &eb, u, did);
            lemma_link_find_after_owner_edge(&eb, e1, did, lid, u);
            assert(domain_named_pred(&eb, domain) =~= domain_named_pred(&ea, domain));
        },
        ExistingOrNewNodeId::New(x) => {
            lemma_added_node(&ea, &eb, lp, labels, Some(did), x);
            crate::engine::graph::lemma_ids_with_label(ea.node_order(), ea.node_map(), NodeLabel::DomainName);
            lemma_first_where_some(labelled_ids(&ea, NodeLabel::DomainName), domain_named_pred(&ea, domain));
            ea.lemma_wf();
            assert(ea.node_map().contains_key(did));
            law_link_added_once(&ea, &eb, e1, x, did, labels, lp);
            lemma_domain_by_name_after_other_add(&ea, &eb, x, domain);
        },
    }
    assert(link_find(e1, u, Some(did)) == Ok::<Option<NodeId>, PiErrorKind>(Some(lid)));
    assert(domain_named_pred(e1, domain) =~= domain_named_pred(&eb, domain));
    assert(domain_by_name(e1, domain) == Some(did));
    // the second call finds both
    let (ea2, d2, dp2) = choose|ea2: Engine, d2: PiResult<ExistingOrNewNodeId>, dp2: PayloadView| {
        &&& ea2.wf()
        &&& dp2 matches PayloadView::Text(t) && t@ == domain
        &&& get_or_add_effect(e1, &ea2, dp2, dl, b, None, d2)
        &&& match d2 {
            Err(de) => r2 matches Err(e) && e.kind() == de.kind() && crate::engine::ops::unchanged(e2, &ea2),
            Ok(did2) => exists|eb2: Engine, l2: PiResult<ExistingOrNewNodeId>, lp2: PayloadView| {
                &&& eb2.wf()
                &&& is_link_payload(lp2, parts.1, parts.2)
                &&& get_or_add_effect(&ea2, &eb2, lp2, labels, true, Some(did2.spec_node_id()), l2)
                &&& match l2 {
                    Err(le) => r2 matches Err(e) && e.kind() == le.kind() && crate::engine::ops::unchanged(e2, &eb2),
                    Ok(lid2) => r2 == Ok::<NodeId, PiError>(lid2.spec_node_id()) && connection_effect(
                        &eb2,
                        e2,
                        (did2.spec_node_id(), lid2.spec_node_id()),
                        (CommonEdgeLabels::OwnerOf, CommonEdgeLabels::BelongsTo),
                    ),
                }
            },
        }
    };
    assert(d2 == Ok::<ExistingOrNewNodeId, PiError>(ExistingOrNewNodeId::Existing(did)));
    lemma_link_find_unchanged(&ea2, e1, u, did);
    let (eb2, l2, lp2) = choose|eb2: Engine, l2: PiResult<ExistingOrNewNodeId>, lp2: PayloadView| {
        &&& eb2.wf()
        &&& is_link_payload(lp2, parts.1, parts.2)
        &&& get_or_add_effect(&ea2, &eb2, lp2, labels, true, Some(did), l2)
        &&& match l2 {
            Err(le) => r2 matches Err(e) && e.kind() == le.kind() && crate::engine::ops::unchanged(e2, &eb2),
            Ok(lid2) => r2 == Ok::<NodeId, PiError>(lid2.spec_node_id()) && connection_effect(
                &eb2,
                e2,
                (did, lid2.spec_node_id()),
                (CommonEdgeLabels::OwnerOf, CommonEdgeLabels::BelongsTo),
            ),
        }
    };
    assert(lp2->Link_0.spec_full_link() == u);
    assert(l2 == Ok::<ExistingOrNewNodeId, PiError>(ExistingOrNewNodeId::Existing(lid)));
}

} // verus!
