use vstd::prelude::*;
use crate::engine::api::{
    api_nodes_of, ascending, lists_nodes, label_names, labelled, nodes_for_ids, present, sort_ids,
    sorted_ids_with_label, sorted_ids_written_after, sorted_listing, written_after, APIEdges,
    APINodeItem, EngineRequest, EngineRequestPayload, EngineResponse, EngineResponsePayload,
    NodeWrite, ProjectSettingsWrite,
};
use crate::engine::explore::{explore, explore_of};
use crate::engine::graph::{is_label_listing, Engine};
use crate::engine::labels::{node_label_name, CommonEdgeLabels, NodeId, NodeLabel};
use crate::engine::node::{labels_contain, ExistingOrNewNodeId, Payload, PayloadView};
use crate::engine::ops::{connection_effect, get_or_add_effect, unchanged};
use crate::engine::reports::{
    api_edge_lists_of, classified_items_of, classified_pages, classify_pages, edge_lists_written_after,
    edges_written_after, entities_from_pages, entities_of_pages, entity_groups_of, group_entities,
};
use crate::entity::project_settings::ProjectSettings;
use crate::entity::search::saved_search::{matches_search, SavedSearch};
use crate::entity::web::link::{link_add_effect, Link};
use crate::error::{PiError, PiErrorKind, PiResult};
use crate::text::{concat, concat3, decimal, decimal_string};

verus! {

/// The name of the kind of a payload.
pub open spec fn payload_name(p: PayloadView) -> Seq<char> {
    match p {
        PayloadView::Link(_) => "Link"@,
        PayloadView::WebMetadata(_) => "WebMetadata"@,
        PayloadView::Text(_) => "Text"@,
        PayloadView::Tree => "Tree"@,
        PayloadView::ProjectSettings(_) => "ProjectSettings"@,
        PayloadView::CrawlerSettings(_) => "CrawlerSettings"@,
        PayloadView::ClassifierSettings(_) => "ClassifierSettings"@,
        PayloadView::Classification(_) => "Classification"@,
        PayloadView::NamedEntitiesToExtract(_) => "NamedEntitiesToExtract"@,
        PayloadView::ExtractedNamedEntities(_) => "ExtractedNamedEntities"@,
        PayloadView::Conclusion(_) => "Conclusion"@,
    }
}

impl Payload {
    /// The name of the kind of this payload.
    pub fn name(&self) -> (r: &'static str)
        ensures
            r@ == payload_name(self@),
    {
        match self {
            Payload::Link(_) => "Link",
            Payload::WebMetadata(_) => "WebMetadata",
            Payload::Text(_) => "Text",
            Payload::Tree => "Tree",
            Payload::ProjectSettings(_) => "ProjectSettings",
            Payload::CrawlerSettings(_) => "CrawlerSettings",
            Payload::ClassifierSettings(_) => "ClassifierSettings",
            Payload::Classification(_) => "Classification",
            Payload::NamedEntitiesToExtract(_) => "NamedEntitiesToExtract",
            Payload::ExtractedNamedEntities(_) => "ExtractedNamedEntities",
            Payload::Conclusion(_) => "Conclusion",
        }
    }
}

/// The project settings that the user wrote.
pub open spec fn settings_of_write(w: ProjectSettingsWrite) -> ProjectSettings {
    ProjectSettings {
        only_extract_data_from_specified_links: w.extract_data_only_from_specified_links,
        only_crawl_within_domains_of_specified_links: w.crawl_within_domains_of_specified_links,
        only_crawl_direct_links_from_specified_links: w.crawl_direct_links_from_specified_links,
    }
}

/// The ID of a found or added node, or the error.
pub open spec fn id_result(x: PiResult<ExistingOrNewNodeId>) -> PiResult<NodeId> {
    match x {
        Ok(v) => Ok(v.spec_node_id()),
        Err(e) => Err(e),
    }
}

/// The effect of creating the node that the user wrote, and the result.
pub open spec fn node_write_effect(old: &Engine, new: &Engine, w: NodeWrite, r: PiResult<NodeId>) -> bool {
    match w {
        NodeWrite::Link(l) => link_add_effect(
            old,
            new,
            l.url@,
            seq![NodeLabel::AddedByUser, NodeLabel::Link],
            Seq::empty(),
            true,
            r,
        ),
        NodeWrite::SearchTerm(t) => exists|x: PiResult<ExistingOrNewNodeId>| {
            &&& get_or_add_effect(old, new, PayloadView::Text(t), seq![NodeLabel::AddedByUser, NodeLabel::SearchTerm], true, None, x)
            &&& r == id_result(x)
        },
        NodeWrite::Objective(t) => exists|x: PiResult<ExistingOrNewNodeId>| {
            &&& get_or_add_effect(old, new, PayloadView::Text(t), seq![NodeLabel::AddedByUser, NodeLabel::Objective], true, None, x)
            &&& r == id_result(x)
        },
        NodeWrite::ProjectSettings(w) => exists|x: PiResult<ExistingOrNewNodeId>| {
            &&& get_or_add_effect(
                old,
                new,
                PayloadView::ProjectSettings(settings_of_write(w)),
                seq![NodeLabel::AddedByUser, NodeLabel::ProjectSettings],
                true,
                None,
                x,
            )
            &&& r == id_result(x)
        },
    }
}

/// Adds the node that the user wrote and returns its ID.
pub fn create_node_from_write(engine: &mut Engine, w: NodeWrite) -> (r: PiResult<NodeId>)
    requires
        old(engine).wf(),
    ensures
        final(engine).wf(),
        node_write_effect(old(engine), final(engine), w, r),
{
    match w {
        NodeWrite::Link(l) => {
            let mut labels: Vec<NodeLabel> = Vec::new();
            labels.push(NodeLabel::AddedByUser);
            labels.push(NodeLabel::Link);
            assert(labels@ =~= seq![NodeLabel::AddedByUser, NodeLabel::Link]);
            let extra: Vec<NodeLabel> = Vec::new();
            assert(extra@ =~= Seq::<NodeLabel>::empty());
            let r = Link::add(engine, l.url.as_str(), labels, extra, true);
            assert(link_add_effect(old(engine), engine, l.url@, seq![NodeLabel::AddedByUser, NodeLabel::Link], Seq::empty(), true, r));
            r
        },
        NodeWrite::SearchTerm(t) => {
            let mut labels: Vec<NodeLabel> = Vec::new();
            labels.push(NodeLabel::AddedByUser);
            labels.push(NodeLabel::SearchTerm);
            assert(labels@ =~= seq![NodeLabel::AddedByUser, NodeLabel::SearchTerm]);
            let ghost tv = t;
            let x = engine.get_or_add_node(Payload::Text(t), labels, true, None);
            let r = match x {
                Ok(v) => Ok(v.get_node_id()),
                Err(e) => Err(e),
            };
            assert(get_or_add_effect(old(engine), engine, PayloadView::Text(tv), seq![NodeLabel::AddedByUser, NodeLabel::SearchTerm], true, None, x));
            assert(r == id_result(x));
            r
        },
        NodeWrite::Objective(t) => {
            let mut labels: Vec<NodeLabel> = Vec::new();
            labels.push(NodeLabel::AddedByUser);
            labels.push(NodeLabel::Objective);
            assert(labels@ =~= seq![NodeLabel::AddedByUser, NodeLabel::Objective]);
            let ghost tv = t;
            let x = engine.get_or_add_node(Payload::Text(t), labels, true, None);
            let r = match x {
                Ok(v) => Ok(v.get_node_id()),
                Err(e) => Err(e),
            };
            assert(get_or_add_effect(old(engine), engine, PayloadView::Text(tv), seq![NodeLabel::AddedByUser, NodeLabel::Objective], true, None, x));
            assert(r == id_result(x));
            r
        },
        NodeWrite::ProjectSettings(w) => {
            let mut labels: Vec<NodeLabel> = Vec::new();
            labels.push(NodeLabel::AddedByUser);
            labels.push(NodeLabel::ProjectSettings);
            assert(labels@ =~= seq![NodeLabel::AddedByUser, NodeLabel::ProjectSettings]);
            let settings = ProjectSettings {
                only_extract_data_from_specified_links: w.extract_data_only_from_specified_links,
                only_crawl_within_domains_of_specified_links: w.crawl_within_domains_of_specified_links,
                only_crawl_direct_links_from_specified_links: w.crawl_direct_links_from_specified_links,
            };
            assert(settings == settings_of_write(w));
            let x = engine.get_or_add_node(Payload::ProjectSettings(settings), labels, true, None);
            let r = match x {
                Ok(v) => Ok(v.get_node_id()),
                Err(e) => Err(e),
            };
            assert(get_or_add_effect(old(engine), engine, PayloadView::ProjectSettings(settings_of_write(w)), seq![NodeLabel::AddedByUser, NodeLabel::ProjectSettings], true, None, x));
            assert(r == id_result(x));
            r
        },
    }
}

/// The answer to a query on node `id`.
pub open spec fn query_answer(e: &Engine, id: NodeId, a: EngineResponsePayload) -> bool {
    if !e.node_map().contains_key(id) {
        a matches EngineResponsePayload::Error(m) && m@ == "Node "@ + decimal(id as nat) + " not found"@
    } else {
        let n = e.node_map()[id];
        if n.labels.contains(NodeLabel::SearchTerm) && n.payload is Text {
            a matches EngineResponsePayload::Nodes(v) && lists_nodes(v@, e, matches_search(e, n.payload->Text_0@))
        } else {
            a matches EngineResponsePayload::Error(m) && m@ == "Query only works on search terms, not on "@
                + payload_name(n.payload)
        }
    }
}

/// The API forms of nodes that all exist, in the same order.
pub fn nodes_for_present_ids(engine: &Engine, ids: &Vec<NodeId>) -> (r: Vec<APINodeItem>)
    requires
        engine.wf(),
        forall|i: int| 0 <= i < ids@.len() ==> engine.node_map().contains_key(#[trigger] ids@[i]),
    ensures
        api_nodes_of(r@, engine, ids@),
{
    let mut r: Vec<APINodeItem> = Vec::new();
    let mut i: usize = 0;
    while i < ids.len()
        invariant
            engine.wf(),
            i <= ids@.len(),
            forall|k: int| 0 <= k < ids@.len() ==> engine.node_map().contains_key(#[trigger] ids@[k]),
            r@.len() == i,
            forall|k: int| 0 <= k < i ==> crate::engine::api::api_node_of(#[trigger] r@[k], engine.node_map()[ids@[k]]),
        decreases ids@.len() - i,
    {
        let id = ids[i];
        assert(engine.node_map().contains_key(ids@[i as int]));
        let node = engine.get_node_by_id(&id).unwrap();
        r.push(APINodeItem::from_node(node));
        i = i + 1;
    }
    r
}

/// The nodes of a sorted listing all exist.
pub proof fn lemma_listing_present(s: Seq<NodeId>, p: spec_fn(NodeId) -> bool, e: &Engine)
    requires
        sorted_listing(s, p),
        forall|x: NodeId| p(x) ==> e.node_map().contains_key(x),
    ensures
        forall|i: int| 0 <= i < s.len() ==> e.node_map().contains_key(#[trigger] s[i]),
{
    assert forall|i: int| 0 <= i < s.len() implies e.node_map().contains_key(#[trigger] s[i]) by {
        assert(s.contains(s[i]));
    }
}

/// Answers a query on node `id`: the nodes that match a search term.
pub fn answer_query(engine: &Engine, id: NodeId) -> (r: EngineResponsePayload)
    requires
        engine.wf(),
    ensures
        query_answer(engine, id, r),
{
    match engine.get_node_by_id(&id) {
        None => {
            let mut m = String::from_str("Node ");
            let digits = decimal_string(id as u64);
            m.append(digits.as_str());
            m.append(" not found");
            EngineResponsePayload::Error(m)
        },
        Some(node) => {
            let is_term = labels_contain(&node.labels, NodeLabel::SearchTerm);
            match &node.payload {
                Payload::Text(t) => {
                    if is_term {
                        let ghost term = t@;
                        match SavedSearch::query(node, engine, &id) {
                            Ok(ids) => {
                                proof {
                                    lemma_listing_present(ids@, matches_search(engine, term), engine);
                                }
                                let v = nodes_for_present_ids(engine, &ids);
                                proof {
                                    let n = engine.node_map()[id];
                                    assert(n.payload->Text_0@ == term);
                                    assert(sorted_listing(ids@, matches_search(engine, n.payload->Text_0@)));
                                    assert(lists_nodes(v@, engine, matches_search(engine, n.payload->Text_0@)));
                                }
                                let a = EngineResponsePayload::Nodes(v);
                                assert(query_answer(engine, id, a));
                                return a;
                            },
                            Err(_) => {
                                assert(false);
                            },
                        }
                    }
                },
                _ => {},
            }
            EngineResponsePayload::Error(concat("Query only works on search terms, not on ", node.payload.name()))
        },
    }
}

/// The first objective node, by ID.
pub open spec fn first_objective(e: &Engine, s: Seq<NodeId>) -> bool {
    sorted_listing(s, labelled(e, NodeLabel::Objective))
}

/// True when `a` (or the error `r`) is the answer to a request, and `new` is
/// the engine afterwards.
pub open spec fn request_answered(old: &Engine, new: &Engine, p: EngineRequestPayload, r: PiResult<EngineResponsePayload>) -> bool {
    match p {
        EngineRequestPayload::Explore(start) => {
            &&& unchanged(new, old)
            &&& match start {
                Some(id) => if old.node_map().contains_key(id) {
                    r matches Ok(EngineResponsePayload::Explore(x)) && explore_of(x, old, id)
                } else {
                    r matches Err(e) && e is InternalError
                },
                None => exists|s: Seq<NodeId>| {
                    &&& first_objective(old, s)
                    &&& if s.len() > 0 {
                        r matches Ok(EngineResponsePayload::Explore(x)) && explore_of(x, old, s[0])
                    } else {
                        r matches Err(e) && e is InternalError
                    }
                },
            }
        },
        EngineRequestPayload::GetLabels => {
            &&& unchanged(new, old)
            &&& r matches Ok(EngineResponsePayload::Labels(v))
            &&& exists|ls: Seq<NodeLabel>| {
                &&& is_label_listing(old, ls)
                &&& v@.len() == ls.len()
                &&& forall|i: int| 0 <= i < ls.len() ==> (#[trigger] v@[i])@ == node_label_name(ls[i])
            }
        },
        EngineRequestPayload::GetNodesWithLabel(name) => {
            &&& unchanged(new, old)
            &&& if exists|l: NodeLabel| node_label_name(l) == name@ {
                &&& r matches Ok(EngineResponsePayload::Nodes(v))
                &&& exists|l: NodeLabel| node_label_name(l) == name@ && lists_nodes(v@, old, labelled(old, l))
            } else {
                r matches Err(e) && e is CouldNotParseNodeLabel
            }
        },
        EngineRequestPayload::GetNodesWithIds(ids) => {
            &&& unchanged(new, old)
            &&& r matches Ok(EngineResponsePayload::Nodes(v))
            &&& exists|s: Seq<NodeId>| {
                &&& ascending(s)
                &&& s.to_multiset() == ids@.to_multiset()
                &&& api_nodes_of(v@, old, s.filter(present(old)))
            }
        },
        EngineRequestPayload::GetAllNodes(since) => {
            &&& unchanged(new, old)
            &&& r matches Ok(EngineResponsePayload::Nodes(v))
            &&& lists_nodes(v@, old, written_after(old, since))
        },
        EngineRequestPayload::GetAllEdges(since) => {
            &&& unchanged(new, old)
            &&& r matches Ok(EngineResponsePayload::Edges(APIEdges(v)))
            &&& api_edge_lists_of(v@, old, old.edge_order().filter(edges_written_after(old, since)))
        },
        EngineRequestPayload::CreateNode(w) => exists|x: PiResult<NodeId>| {
            &&& node_write_effect(old, new, w, x)
            &&& match x {
                Ok(id) => r matches Ok(EngineResponsePayload::NodeCreatedSuccessfully(i)) && i == id,
                Err(e) => r == Err::<EngineResponsePayload, PiError>(e),
            }
        },
        EngineRequestPayload::CreateEdge(w) => {
            &&& connection_effect(old, new, w.node_ids, w.edge_labels)
            &&& r matches Ok(EngineResponsePayload::EdgeCreatedSuccessfully)
        },
        EngineRequestPayload::Query(id) => {
            &&& unchanged(new, old)
            &&& r matches Ok(a)
            &&& query_answer(old, id, a)
        },
        EngineRequestPayload::GetEntities => {
            &&& unchanged(new, old)
            &&& r matches Ok(EngineResponsePayload::Entities(gs))
            &&& exists|pages: Seq<NodeId>| {
                &&& sorted_listing(pages, labelled(old, NodeLabel::WebPage))
                &&& entity_groups_of(gs@, entities_of_pages(old, pages))
            }
        },
        EngineRequestPayload::GetClassifications => {
            &&& unchanged(new, old)
            &&& r matches Ok(EngineResponsePayload::Classifications(items))
            &&& exists|pages: Seq<NodeId>| {
                &&& sorted_listing(pages, labelled(old, NodeLabel::WebPage))
                &&& classified_items_of(items@, classified_pages(old, pages))
            }
        },
    }
}

/// Answers a request that only reads the graph.
fn answer_read(engine: &Engine, p: EngineRequestPayload) -> (r: PiResult<EngineResponsePayload>)
    requires
        engine.wf(),
        !(p is CreateNode || p is CreateEdge),
    ensures
        request_answered(engine, engine, p, r),
{
    match p {
        EngineRequestPayload::Explore(start) => {
            let start_id = match start {
                Some(id) => {
                    if engine.get_node_by_id(&id).is_none() {
                        return Err(PiError::InternalError(String::from_str("Cannot find given starting node")));
                    }
                    id
                },
                None => {
                    let objectives = sorted_ids_with_label(engine, NodeLabel::Objective);
                    assert(first_objective(engine, objectives@));
                    if objectives.len() == 0 {
                        return Err(PiError::InternalError(String::from_str(
                            "Could not find the starting Objective node",
                        )));
                    }
                    proof {
                        assert(objectives@.contains(objectives@[0]));
                    }
                    let first = objectives[0];
                    let x = explore(engine, first);
                    return Ok(EngineResponsePayload::Explore(x));
                },
            };
            Ok(EngineResponsePayload::Explore(explore(engine, start_id)))
        },
        EngineRequestPayload::GetLabels => {
            let labels = engine.get_all_node_labels();
            let names = label_names(&labels);
            assert(is_label_listing(engine, labels@));
            Ok(EngineResponsePayload::Labels(names))
        },
        EngineRequestPayload::GetNodesWithLabel(name) => {
            let label = match NodeLabel::from_name(name.as_str()) {
                Ok(l) => l,
                Err(e) => {
                    return Err(e);
                },
            };
            let ids = sorted_ids_with_label(engine, label);
            proof {
                lemma_listing_present(ids@, labelled(engine, label), engine);
            }
            let v = nodes_for_present_ids(engine, &ids);
            assert(node_label_name(label) == name@ && sorted_listing(ids@, labelled(engine, label)) && api_nodes_of(v@, engine, ids@));
            Ok(EngineResponsePayload::Nodes(v))
        },
        EngineRequestPayload::GetNodesWithIds(ids) => {
            let sorted = sort_ids(&ids);
            let v = nodes_for_ids(engine, &sorted);
            assert(ascending(sorted@) && sorted@.to_multiset() == ids@.to_multiset());
            Ok(EngineResponsePayload::Nodes(v))
        },
        EngineRequestPayload::GetAllNodes(since) => {
            let ids = sorted_ids_written_after(engine, since);
            proof {
                lemma_listing_present(ids@, written_after(engine, since), engine);
            }
            let v = nodes_for_present_ids(engine, &ids);
            assert(sorted_listing(ids@, written_after(engine, since)) && api_nodes_of(v@, engine, ids@));
            Ok(EngineResponsePayload::Nodes(v))
        },
        EngineRequestPayload::GetAllEdges(since) => {
            Ok(EngineResponsePayload::Edges(APIEdges(edge_lists_written_after(engine, since))))
        },
        EngineRequestPayload::Query(id) => Ok(answer_query(engine, id)),
        EngineRequestPayload::GetEntities => {
            let pages = sorted_ids_with_label(engine, NodeLabel::WebPage);
            let ents = entities_from_pages(engine, &pages);
            let gs = group_entities(&ents);
            assert(sorted_listing(pages@, labelled(engine, NodeLabel::WebPage)));
            Ok(EngineResponsePayload::Entities(gs))
        },
        EngineRequestPayload::GetClassifications => {
            let pages = sorted_ids_with_label(engine, NodeLabel::WebPage);
            let items = classify_pages(engine, &pages);
            assert(sorted_listing(pages@, labelled(engine, NodeLabel::WebPage)));
            Ok(EngineResponsePayload::Classifications(items))
        },
        EngineRequestPayload::CreateNode(_) => {
            assert(false);
            Err(PiError::InternalError(String::new()))
        },
        EngineRequestPayload::CreateEdge(_) => {
            assert(false);
            Err(PiError::InternalError(String::new()))
        },
    }
}

/// Answers an API request to the engine of a project. Requests that create
/// nodes or edges change the graph; the others only read it.
pub fn handle_engine_api_request(request: EngineRequest, engine: &mut Engine) -> (r: PiResult<EngineResponse>)
    requires
        old(engine).wf(),
    ensures
        final(engine).wf(),
        r matches Ok(resp) ==> resp.request_id == request.request_id,
        exists|a: PiResult<EngineResponsePayload>| {
            &&& request_answered(old(engine), final(engine), request.payload, a)
            &&& match a {
                Ok(p) => r matches Ok(resp) && resp.payload == p,
                Err(e) => r == Err::<EngineResponse, PiError>(e),
            }
        },
{
    let request_id = request.request_id;
    let ghost p0 = request.payload;
    let answer: PiResult<EngineResponsePayload> = match request.payload {
        EngineRequestPayload::CreateNode(w) => {
            let x = create_node_from_write(engine, w);
            let a = match x {
                Ok(id) => Ok(EngineResponsePayload::NodeCreatedSuccessfully(id)),
                Err(e) => Err(e),
            };
            assert(node_write_effect(old(engine), engine, w, x));
            a
        },
        EngineRequestPayload::CreateEdge(w) => {
            engine.add_connection(w.node_ids, w.edge_labels);
            Ok(EngineResponsePayload::EdgeCreatedSuccessfully)
        },
        p => answer_read(engine, p),
    };
    assert(request_answered(old(engine), engine, p0, answer));
    match answer {
        Ok(payload) => Ok(EngineResponse { request_id, payload }),
        Err(e) => Err(e),
    }
}

} // verus!
