use pixlie_ai::engine::node::NodeItem;
use pixlie_ai::entity::web::link::Link;
use pixlie_ai::engine::api::{
    APIPayload, EdgeWrite, EngineRequest, EngineRequestPayload, EngineResponsePayload, LinkWrite, NodeWrite,
};
use pixlie_ai::engine::graph::Engine;
use pixlie_ai::engine::labels::{CommonEdgeLabels, NodeLabel};
use pixlie_ai::engine::node::Payload;
use pixlie_ai::engine::requests::handle_engine_api_request;
use pixlie_ai::entity::classifier::Classification;
use pixlie_ai::entity::named_entity::{EntityName, ExtractedEntity};
use pixlie_ai::error::PiError;

fn ask(engine: &mut Engine, payload: EngineRequestPayload) -> Result<EngineResponsePayload, PiError> {
    handle_engine_api_request(EngineRequest { request_id: 1, project_id: "p".to_string(), payload }, engine)
        .map(|r| r.payload)
}

fn create(engine: &mut Engine, w: NodeWrite) -> u32 {
    match ask(engine, EngineRequestPayload::CreateNode(w)).unwrap() {
        EngineResponsePayload::NodeCreatedSuccessfully(id) => id,
        _ => panic!("expected a new node"),
    }
}

fn node_ids(p: EngineResponsePayload) -> Vec<u32> {
    match p {
        EngineResponsePayload::Nodes(v) => v.iter().map(|n| n.id).collect(),
        _ => panic!("expected nodes"),
    }
}

fn add(engine: &mut Engine, payload: Payload, labels: Vec<NodeLabel>) -> u32 {
    engine.get_or_add_node(payload, labels, true, None).unwrap().get_node_id()
}

fn entity(kind: EntityName, text: &str) -> ExtractedEntity {
    ExtractedEntity { entity_name: kind, matching_text: text.to_string(), start: None, end: None }
}

/// An objective, two links on one domain, and a web page of the first link
/// that was classified and had entities extracted.
fn project() -> (Engine, u32, u32, u32, u32) {
    let mut engine = Engine::new("p".to_string());
    engine.set_clock(1_000);
    let objective = create(&mut engine, NodeWrite::Objective("find rust jobs".to_string()));
    let a = create(&mut engine, NodeWrite::Link(LinkWrite { url: "https://example.com/a".to_string() }));
    let b = create(&mut engine, NodeWrite::Link(LinkWrite { url: "https://example.com/b".to_string() }));
    for l in [a, b] {
        let r = ask(
            &mut engine,
            EngineRequestPayload::CreateEdge(EdgeWrite {
                node_ids: (objective, l),
                edge_labels: (CommonEdgeLabels::RelatedTo, CommonEdgeLabels::RelatedTo),
            }),
        );
        assert!(matches!(r, Ok(EngineResponsePayload::EdgeCreatedSuccessfully)));
    }
    let page = add(&mut engine, Payload::Text("<html></html>".to_string()), vec![NodeLabel::WebPage]);
    engine.add_connection((page, a), (CommonEdgeLabels::ParentOf, CommonEdgeLabels::ChildOf));
    let c = add(
        &mut engine,
        Payload::Classification(Classification {
            is_relevant: true,
            reason: "about rust".to_string(),
            insight_if_classified_as_relevant: Some("hiring".to_string()),
        }),
        vec![NodeLabel::Classification],
    );
    engine.add_connection((page, c), (CommonEdgeLabels::Classifies, CommonEdgeLabels::ClassifiedFor));
    let ents = add(
        &mut engine,
        Payload::ExtractedNamedEntities(vec![
            entity(EntityName::Place, "Pune"),
            entity(EntityName::Person, "Ada"),
            entity(EntityName::Place, "Pune"),
            entity(EntityName::Person, "Alan"),
        ]),
        vec![NodeLabel::ExtractedNamedEntities],
    );
    engine.add_connection((page, ents), (CommonEdgeLabels::Suggests, CommonEdgeLabels::SuggestedFor));
    (engine, objective, a, b, page)
}

#[test]
fn nodes_by_label_ids_and_unknown_label() {
    let (mut engine, objective, a, b, page) = project();
    assert_eq!(node_ids(ask(&mut engine, EngineRequestPayload::GetNodesWithLabel("Link".to_string())).unwrap()), vec![a, b]);
    assert_eq!(
        node_ids(ask(&mut engine, EngineRequestPayload::GetNodesWithLabel("Objective".to_string())).unwrap()),
        vec![objective]
    );
    assert!(matches!(
        ask(&mut engine, EngineRequestPayload::GetNodesWithLabel("NoSuchLabel".to_string())),
        Err(PiError::CouldNotParseNodeLabel(_))
    ));
    // IDs come back sorted, missing ones left out
    assert_eq!(
        node_ids(ask(&mut engine, EngineRequestPayload::GetNodesWithIds(vec![page, 9999, a])).unwrap()),
        vec![a, page]
    );
    let all = node_ids(ask(&mut engine, EngineRequestPayload::GetAllNodes(0)).unwrap());
    assert!(all.contains(&objective) && all.contains(&page));
}

#[test]
fn page_text_is_kept_from_clients() {
    let (mut engine, _objective, _a, _b, page) = project();
    match ask(&mut engine, EngineRequestPayload::GetNodesWithIds(vec![page])).unwrap() {
        EngineResponsePayload::Nodes(v) => match &v[0].payload {
            APIPayload::Text(t) => assert_eq!(t, ""),
            _ => panic!("expected a text payload"),
        },
        _ => panic!("expected nodes"),
    }
}

#[test]
fn edges_are_created_in_pairs_and_listed() {
    let (mut engine, objective, a, b, _page) = project();
    match ask(&mut engine, EngineRequestPayload::GetAllEdges(0)).unwrap() {
        EngineResponsePayload::Edges(e) => {
            let of_objective = &e.0.iter().find(|(id, _)| *id == objective).unwrap().1;
            assert!(of_objective.edges.contains(&(a, "RelatedTo".to_string())));
            assert!(of_objective.edges.contains(&(b, "RelatedTo".to_string())));
            let of_a = &e.0.iter().find(|(id, _)| *id == a).unwrap().1;
            assert!(of_a.edges.contains(&(objective, "RelatedTo".to_string())));
        }
        _ => panic!("expected edges"),
    }
}

#[test]
fn explore_starts_at_the_objective() {
    let (mut engine, objective, a, b, _page) = project();
    match ask(&mut engine, EngineRequestPayload::Explore(None)).unwrap() {
        EngineResponsePayload::Explore(x) => {
            let ids: Vec<u32> = x.nodes.iter().map(|n| n.id).collect();
            assert_eq!(ids[0], objective);
            assert!(ids.contains(&a) && ids.contains(&b));
            assert!(x.sibling_nodes.contains(&vec![a, b]));
        }
        _ => panic!("expected an explore answer"),
    }
    assert!(matches!(ask(&mut engine, EngineRequestPayload::Explore(Some(9999))), Err(PiError::InternalError(_))));
    let mut empty = Engine::new("q".to_string());
    assert!(matches!(ask(&mut empty, EngineRequestPayload::Explore(None)), Err(PiError::InternalError(_))));
}

#[test]
fn classifications_of_web_pages() {
    let (mut engine, ..) = project();
    match ask(&mut engine, EngineRequestPayload::GetClassifications).unwrap() {
        EngineResponsePayload::Classifications(items) => {
            assert_eq!(items.len(), 1);
            assert_eq!(items[0].url, "https://example.com/a");
            assert!(items[0].is_relevant);
            assert_eq!(items[0].reason, "about rust");
            assert_eq!(items[0].insight, Some("hiring".to_string()));
        }
        _ => panic!("expected classifications"),
    }
}

#[test]
fn entities_grouped_by_kind_without_repeats() {
    let (mut engine, ..) = project();
    match ask(&mut engine, EngineRequestPayload::GetEntities).unwrap() {
        EngineResponsePayload::Entities(groups) => {
            assert_eq!(groups.len(), 2);
            assert_eq!(groups[0].entity_name, "Person");
            assert_eq!(groups[0].extracted_text, vec!["Ada".to_string(), "Alan".to_string()]);
            assert_eq!(groups[1].entity_name, "Place");
            assert_eq!(groups[1].extracted_text, vec!["Pune".to_string()]);
        }
        _ => panic!("expected entities"),
    }
}

#[test]
fn query_needs_a_search_term() {
    let (mut engine, objective, ..) = project();
    match ask(&mut engine, EngineRequestPayload::Query(9999)).unwrap() {
        EngineResponsePayload::Error(m) => assert_eq!(m, "Node 9999 not found"),
        _ => panic!("expected an error answer"),
    }
    match ask(&mut engine, EngineRequestPayload::Query(objective)).unwrap() {
        EngineResponsePayload::Error(m) => assert_eq!(m, "Query only works on search terms, not on Text"),
        _ => panic!("expected an error answer"),
    }
    let title = add(&mut engine, Payload::Text("Rust Jobs in Pune".to_string()), vec![NodeLabel::Title]);
    add(&mut engine, Payload::Text("Gardening".to_string()), vec![NodeLabel::Paragraph]);
    let term = create(&mut engine, NodeWrite::SearchTerm("rust jobs".to_string()));
    assert_eq!(node_ids(ask(&mut engine, EngineRequestPayload::Query(term)).unwrap()), vec![title]);
}

#[test]
fn a_link_is_added_once() {
    let mut engine = Engine::new("p".to_string());
    let a = create(&mut engine, NodeWrite::Link(LinkWrite { url: "https://example.com/a?x=1".to_string() }));
    let again = create(&mut engine, NodeWrite::Link(LinkWrite { url: "https://example.com/a?x=1#top".to_string() }));
    assert_eq!(a, again);
    let other = create(&mut engine, NodeWrite::Link(LinkWrite { url: "https://example.com/a?x=2".to_string() }));
    assert_ne!(a, other);
    assert_eq!(node_ids(ask(&mut engine, EngineRequestPayload::GetNodesWithLabel("DomainName".to_string())).unwrap()).len(), 1);
}

#[test]
fn writes_are_stamped_with_the_clock() {
    let mut engine = Engine::new("p".to_string());
    engine.set_clock(5);
    let a = add(&mut engine, Payload::Text("a".to_string()), vec![NodeLabel::Title]);
    engine.set_clock(10);
    let b = add(&mut engine, Payload::Text("b".to_string()), vec![NodeLabel::Title]);
    assert_eq!(engine.get_node_by_id(&a).unwrap().written_at, 5);
    assert_eq!(engine.get_node_by_id(&b).unwrap().written_at, 10);
    assert_eq!(node_ids(ask(&mut engine, EngineRequestPayload::GetAllNodes(5)).unwrap()), vec![b]);
    engine.set_clock(20);
    engine.add_connection((a, b), (CommonEdgeLabels::RelatedTo, CommonEdgeLabels::RelatedTo));
    assert_eq!(engine.get_connected_nodes(&a).unwrap().written_at, 20);
}

#[test]
fn link_lookup_error_messages() {
    let engine = Engine::new("p".to_string());
    let m = |r: Result<Option<&NodeItem>, PiError>| match r {
        Err(e) => e.get_message().to_string(),
        Ok(_) => panic!("expected an error"),
    };
    assert_eq!(m(Link::find_existing(&engine, "/a", Some(9999))), "Cannot find node with ID 9999 for URL /a");
    assert_eq!(m(Link::find_existing(&engine, "not a url", None)), "Cannot parse URL not a url to get domain");
    assert_eq!(
        m(Link::find_existing(&engine, "https://example.com/a", None)),
        "Cannot find exiting domain node for URL https://example.com/a"
    );
}
