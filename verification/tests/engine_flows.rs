use pixlie_ai::engine::api::{EngineRequest, EngineRequestPayload, EngineResponsePayload, LinkWrite, NodeWrite};
use pixlie_ai::engine::dispatch::{node_kind, NodeKind, NodeReply, ServiceAccess};
use pixlie_ai::engine::fetching::MAX_OPEN_FETCH_REQUESTS;
use pixlie_ai::engine::flags::NodeFlags;
use pixlie_ai::engine::graph::Engine;
use pixlie_ai::engine::labels::{CommonEdgeLabels, NodeLabel};
use pixlie_ai::engine::node::Payload;
use pixlie_ai::engine::requests::handle_engine_api_request;
use pixlie_ai::entity::project_settings::ProjectSettings;
use pixlie_ai::entity::search::web_search::{BraveSearchResponse, Web, WebResult, WebSearch};
use pixlie_ai::entity::web::link::Link;
use pixlie_ai::fetch::{ExternalData, FetchError, ReplyData};
use pixlie_ai::notifier::{EmailConfig, EmailNotification, EmailNotifier};
use pixlie_ai::services::anthropic::json_quote;

fn access() -> ServiceAccess {
    ServiceAccess {
        anthropic_api_key: Some("a-key".to_string()),
        brave_search_api_key: Some("b-key".to_string()),
        model: "test-model".to_string(),
    }
}

fn settings_node(engine: &mut Engine, s: ProjectSettings) -> u32 {
    engine
        .get_or_add_node(Payload::ProjectSettings(s), vec![NodeLabel::ProjectSettings], true, None)
        .unwrap()
        .get_node_id()
}

fn open_settings() -> ProjectSettings {
    ProjectSettings {
        only_extract_data_from_specified_links: false,
        only_crawl_direct_links_from_specified_links: false,
        only_crawl_within_domains_of_specified_links: false,
    }
}

fn result(url: &str) -> WebResult {
    WebResult {
        title: "t".to_string(),
        url: url.to_string(),
        is_source_local: false,
        is_source_both: false,
        description: None,
        page_age: None,
        profile: None,
        language: None,
        family_friendly: true,
        type_field: "search_result".to_string(),
        subtype: "generic".to_string(),
        is_live: false,
        meta_url: None,
        thumbnail: None,
        age: None,
    }
}

#[test]
fn web_search_request_carries_the_term_and_key() {
    let mut engine = Engine::new("p".to_string());
    settings_node(&mut engine, open_settings());
    let id = engine
        .get_or_add_node(Payload::Text("rust jobs".to_string()), vec![NodeLabel::WebSearch], true, None)
        .unwrap()
        .get_node_id();
    let node = engine.get_node_by_id(&id).unwrap().clone();
    assert!(WebSearch::process(&node, &mut engine, None, None).is_err());
    WebSearch::process(&node, &mut engine, None, Some("b-key".to_string())).unwrap();
    let outbox = engine.take_outbox();
    assert_eq!(outbox.len(), 1);
    assert_eq!(outbox[0].url, "https://api.search.brave.com/res/v1/web/search?q=rust+jobs");
}

#[test]
fn web_search_needs_project_settings() {
    let mut engine = Engine::new("p".to_string());
    let id = engine
        .get_or_add_node(Payload::Text("rust".to_string()), vec![NodeLabel::WebSearch], true, None)
        .unwrap()
        .get_node_id();
    let node = engine.get_node_by_id(&id).unwrap().clone();
    assert!(WebSearch::process(&node, &mut engine, None, Some("k".to_string())).is_err());
}

#[test]
fn web_search_results_become_suggested_links() {
    let mut engine = Engine::new("p".to_string());
    settings_node(&mut engine, open_settings());
    let id = engine
        .get_or_add_node(Payload::Text("rust".to_string()), vec![NodeLabel::WebSearch], true, None)
        .unwrap()
        .get_node_id();
    let node = engine.get_node_by_id(&id).unwrap().clone();
    let response = BraveSearchResponse {
        web: Web {
            type_field: "search".to_string(),
            results: vec![result("https://a.com/x"), result("not a url"), result("https://b.org/y?z=1")],
            family_friendly: true,
        },
    };
    WebSearch::process(&node, &mut engine, Some(ReplyData::Response(Ok(response))), None).unwrap();
    let suggested = engine.get_node_ids_connected_with_label(&id, &CommonEdgeLabels::Suggests);
    assert_eq!(suggested.len(), 2);
    assert!(engine.get_node_by_id(&id).unwrap().flags.contains(NodeFlags::is_processed()));
    assert_eq!(engine.get_node_ids_with_label(&NodeLabel::AddedByWebSearch).len(), 2);
}

#[test]
fn web_search_results_are_dropped_when_only_specified_links_count() {
    let mut engine = Engine::new("p".to_string());
    let mut s = open_settings();
    s.only_crawl_direct_links_from_specified_links = true;
    settings_node(&mut engine, s);
    let id = engine
        .get_or_add_node(Payload::Text("rust".to_string()), vec![NodeLabel::WebSearch], true, None)
        .unwrap()
        .get_node_id();
    let node = engine.get_node_by_id(&id).unwrap().clone();
    let response = BraveSearchResponse {
        web: Web { type_field: "search".to_string(), results: vec![result("https://a.com/x")], family_friendly: true },
    };
    WebSearch::process(&node, &mut engine, Some(ReplyData::Response(Ok(response))), None).unwrap();
    assert!(engine.get_node_ids_connected_with_label(&id, &CommonEdgeLabels::Suggests).is_empty());
}

#[test]
fn connections_come_in_pairs() {
    let mut engine = Engine::new("p".to_string());
    let a = engine.get_or_add_node(Payload::Tree, vec![], true, None).unwrap().get_node_id();
    let b = engine.get_or_add_node(Payload::Tree, vec![], true, None).unwrap().get_node_id();
    engine.add_connection((a, b), (CommonEdgeLabels::ParentOf, CommonEdgeLabels::ChildOf));
    assert_eq!(engine.get_node_ids_connected_with_label(&a, &CommonEdgeLabels::ParentOf), vec![b]);
    assert_eq!(engine.get_node_ids_connected_with_label(&b, &CommonEdgeLabels::ChildOf), vec![a]);
    engine.add_connection((a, b), (CommonEdgeLabels::ParentOf, CommonEdgeLabels::ChildOf));
    assert_eq!(engine.get_node_ids_connected_with_label(&a, &CommonEdgeLabels::ParentOf), vec![b]);
}

#[test]
fn no_more_than_the_limit_of_requests_is_open() {
    let mut engine = Engine::new("p".to_string());
    let mut ids = vec![];
    for i in 0..8 {
        let url = format!("https://site{}.com/", i);
        ids.push(Link::add(&mut engine, &url, vec![NodeLabel::Link], vec![], true).unwrap());
    }
    for id in &ids {
        let node = engine.get_node_by_id(id).unwrap().clone();
        Link::process(&node, &mut engine, None).unwrap();
    }
    assert_eq!(engine.get_open_fetch_requests(), MAX_OPEN_FETCH_REQUESTS);
    assert_eq!(engine.take_outbox().len(), MAX_OPEN_FETCH_REQUESTS as usize);
}

#[test]
fn a_finished_request_frees_a_slot() {
    let mut engine = Engine::new("p".to_string());
    let id = Link::add(&mut engine, "https://site.com/a", vec![NodeLabel::Link], vec![], true).unwrap();
    let node = engine.get_node_by_id(&id).unwrap().clone();
    Link::process(&node, &mut engine, None).unwrap();
    assert_eq!(engine.get_open_fetch_requests(), 1);
    let returned = engine.finish_request(id).unwrap();
    assert_eq!(returned.id, id);
    assert_eq!(engine.get_open_fetch_requests(), 0);
    assert!(!engine.get_node_by_id(&id).unwrap().flags.contains(NodeFlags::is_requesting()));
    assert!(engine.finish_request(9999).is_none());
    let failure = FetchError { project_id: "p".to_string(), node_id: id, error: "timeout".to_string() };
    let r = returned.handle_reply(&mut engine, NodeReply::Raw(ExternalData::Error(failure)), &access()).unwrap();
    assert!(r.is_none());
    assert!(engine.get_node_by_id(&id).unwrap().flags.contains(NodeFlags::had_error()));
}

#[test]
fn processing_is_dispatched_by_kind() {
    let mut engine = Engine::new("p".to_string());
    let id = Link::add(&mut engine, "https://site.com/a", vec![NodeLabel::Link], vec![], true).unwrap();
    let link = engine.get_node_by_id(&id).unwrap().clone();
    assert_eq!(node_kind(&link), NodeKind::Link);
    let domain_id = engine.get_node_ids_with_label(&NodeLabel::DomainName)[0];
    let domain = engine.get_node_by_id(&domain_id).unwrap().clone();
    assert_eq!(node_kind(&domain), NodeKind::Domain);
    let reply = NodeReply::WebSearch(ReplyData::Error(FetchError { project_id: "p".to_string(), node_id: id, error: "x".to_string() }));
    assert!(link.handle_reply(&mut engine, reply, &access()).is_err());
    let r = engine.process_node_by_id(domain_id, &access()).unwrap();
    assert!(r.is_none());
    let outbox = engine.take_outbox();
    assert_eq!(outbox.len(), 1);
    assert_eq!(outbox[0].url, "/robots.txt");
    assert!(engine.process_node_by_id(12345, &access()).unwrap().is_none());
}

#[test]
fn api_creates_links_and_lists_labels() {
    let mut engine = Engine::new("p".to_string());
    let request = EngineRequest {
        request_id: 7,
        project_id: "p".to_string(),
        payload: EngineRequestPayload::CreateNode(NodeWrite::Link(LinkWrite { url: "https://example.com/a".to_string() })),
    };
    let response = handle_engine_api_request(request, &mut engine).unwrap();
    assert_eq!(response.request_id, 7);
    assert!(matches!(response.payload, EngineResponsePayload::NodeCreatedSuccessfully(_)));
    let labels = handle_engine_api_request(
        EngineRequest { request_id: 8, project_id: "p".to_string(), payload: EngineRequestPayload::GetLabels },
        &mut engine,
    )
    .unwrap();
    match labels.payload {
        EngineResponsePayload::Labels(names) => {
            assert!(names.contains(&"Link".to_string()));
            assert!(names.contains(&"DomainName".to_string()));
        }
        _ => panic!("expected labels"),
    }
}

#[test]
fn sendgrid_request_parts() {
    let notifier = EmailNotifier::new_with_config(EmailConfig {
        sendgrid_api_key: "SG".to_string(),
        from_email: "bot@x.com".to_string(),
        from_name: "Bot".to_string(),
        to_email: "me@x.com".to_string(),
    });
    assert!(notifier.sends_email());
    assert_eq!(notifier.sendgrid_authorization(), "Bearer SG");
    let n = EmailNotification {
        to: "me@x.com".to_string(),
        subject: "Hi".to_string(),
        body: "Line \"1\"\nLine 2".to_string(),
        url: "u".to_string(),
        relevant_items: vec![],
    };
    assert_eq!(
        notifier.sendgrid_payload(&n),
        "{\"content\":[{\"type\":\"text/plain\",\"value\":\"Line \\\"1\\\"\\nLine 2\"}],\"from\":{\"email\":\"bot@x.com\",\"name\":\"Bot\"},\"personalizations\":[{\"to\":[{\"email\":\"me@x.com\"}]}],\"subject\":\"Hi\"}"
    );
}

#[test]
fn sendgrid_fields_are_json_escaped() {
    let notifier = EmailNotifier::new_with_config(EmailConfig {
        sendgrid_api_key: "SG".to_string(),
        from_email: "bot@x.com".to_string(),
        from_name: "".to_string(),
        to_email: "me@x.com".to_string(),
    });
    let n = EmailNotification {
        to: "me@x.com".to_string(),
        subject: "a\"b\\c\n\t\u{1}".to_string(),
        body: "".to_string(),
        url: "u".to_string(),
        relevant_items: vec![],
    };
    assert_eq!(
        notifier.sendgrid_payload(&n),
        "{\"content\":[{\"type\":\"text/plain\",\"value\":\"\"}],\"from\":{\"email\":\"bot@x.com\",\"name\":\"\"},\"personalizations\":[{\"to\":[{\"email\":\"me@x.com\"}]}],\"subject\":\"a\\\"b\\\\c\\n\\t\\u0001\"}"
    );
}

#[test]
fn search_term_is_form_encoded_in_the_request() {
    let mut engine = Engine::new("p".to_string());
    settings_node(&mut engine, open_settings());
    let id = engine
        .get_or_add_node(Payload::Text("a b&c".to_string()), vec![NodeLabel::WebSearch], true, None)
        .unwrap()
        .get_node_id();
    let node = engine.get_node_by_id(&id).unwrap().clone();
    WebSearch::process(&node, &mut engine, None, Some("k".to_string())).unwrap();
    let outbox = engine.take_outbox();
    assert_eq!(outbox.len(), 1);
    assert_eq!(outbox[0].url, "https://api.search.brave.com/res/v1/web/search?q=a+b%26c");
}

#[test]
fn json_quote_escapes_like_serde_json() {
    for s in ["a\"b\\c\n\t\u{1}\u{1f}\u{7f}é/", "", "\u{8}\u{c}\r"] {
        assert_eq!(json_quote(s), serde_json::to_string(s).unwrap());
    }
}
