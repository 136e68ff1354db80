use pixlie_ai::engine::flags::NodeFlags;
use pixlie_ai::engine::graph::Engine;
use pixlie_ai::engine::labels::{CommonEdgeLabels, NodeLabel};
use pixlie_ai::engine::node::Payload;
use pixlie_ai::entity::classifier::{Classification, Classifier, ClassifierSettings};
use pixlie_ai::entity::conclusion::Conclusion;
use pixlie_ai::entity::crawler::CrawlerSettings;
use pixlie_ai::entity::named_entity::{EntityExtraction, EntityName, ExtractedEntity};
use pixlie_ai::entity::objective::Objective;
use pixlie_ai::entity::pixlie::{disable_tool_by_label, disable_tools_by_labels, LLMResponse, ProjectState, Tool, ToolEnabled};
use pixlie_ai::entity::project_settings::ProjectSettings;
use pixlie_ai::fetch::{FetchError, ReplyData};
use pixlie_ai::services::anthropic::{Anthropic, ClaudeResponse, ClaudeResponseContent};
use pixlie_ai::text::{join_strings, split_second};

const MODEL: &str = "test-model";

fn objective_engine(text: &str) -> (Engine, u32) {
    let mut engine = Engine::new("test".to_string());
    let id = engine
        .get_or_add_node(Payload::Text(text.to_string()), vec![NodeLabel::AddedByUser, NodeLabel::Objective], true, None)
        .unwrap()
        .get_node_id();
    (engine, id)
}

fn normalized(s: &str) -> String {
    s.split_whitespace().collect::<Vec<_>>().join(" ")
}

#[test]
fn test_llm_prompt_for_objective() {
    let objective = "Track software engineering jobs that need full-stack Python and TypeScript skills".to_string();
    let (engine, id) = objective_engine(&objective);
    let objective_node = engine.get_node_by_id(&id).unwrap().clone();
    let llm_schema = Objective::get_llm_response_schema(&objective_node, &engine).unwrap();
    let expected_schema = r#"type CrawlerSettings = { keywords_to_search_the_web_to_get_starting_urls: Array<string>, crawl_link_if_anchor_text_has_any_of_these_keywords: Array<string> | null, };
        type ClassifierSettings = { prompt_to_classify_content_as_relevant_to_objective_or_not: string, };
        type EntityName = "Person" | "Organization" | "Date" | "Place";
        type Tool = { "Crawler": CrawlerSettings } | { "Classifier": ClassifierSettings } | { "NamedEntityExtraction": Array<EntityName> };
        type LLMResponse = { short_project_name_with_spaces: string, tools_needed_to_accomplish_objective: Array<Tool>, };"#;
    assert_eq!(normalized(&llm_schema), normalized(expected_schema));
}

#[test]
fn schema_drops_search_keywords_when_only_direct_links_are_crawled() {
    let (mut engine, id) = objective_engine("Find prices");
    let settings = ProjectSettings {
        only_extract_data_from_specified_links: false,
        only_crawl_direct_links_from_specified_links: true,
        only_crawl_within_domains_of_specified_links: false,
    };
    let sid = engine
        .get_or_add_node(Payload::ProjectSettings(settings), vec![NodeLabel::ProjectSettings], true, None)
        .unwrap()
        .get_node_id();
    engine.add_connection((id, sid), (CommonEdgeLabels::RelatedTo, CommonEdgeLabels::RelatedTo));
    let node = engine.get_node_by_id(&id).unwrap().clone();
    let schema = Objective::get_llm_response_schema(&node, &engine).unwrap();
    assert!(schema.starts_with(
        "type CrawlerSettings = { crawl_link_if_anchor_text_has_any_of_these_keywords: Array<string> | null, };\n"
    ));
}

#[test]
fn project_state_prompt_holds_state_as_json() {
    let state = ProjectState {
        project_settings: Some(ProjectSettings {
            only_extract_data_from_specified_links: false,
            only_crawl_direct_links_from_specified_links: true,
            only_crawl_within_domains_of_specified_links: false,
        }),
        objective: "Say \"hi\"".to_string(),
    };
    let prompt = state.get_prompt("S");
    assert_eq!(
        prompt,
        "I am a software bot and here is my current state:\n```json\n{\"project_settings\":{\"only_extract_data_from_specified_links\":false,\"only_crawl_direct_links_from_specified_links\":true,\"only_crawl_within_domains_of_specified_links\":false},\"objective\":\"Say \\\"hi\\\"\"}\n```\n\nUsing the following schema, please respond in JSON with `LLMResponse` to achieve the objective.\n```typescript\nS\n```\n"
    );
    let bare = ProjectState { project_settings: None, objective: "x".to_string() };
    assert!(bare.get_prompt("S").contains("\n{\"objective\":\"x\"}\n"));
}

#[test]
fn objective_request_needs_an_api_key() {
    let (mut engine, id) = objective_engine("Find prices");
    let node = engine.get_node_by_id(&id).unwrap().clone();
    assert!(Objective::request_llm(&node, &mut engine, None, MODEL).is_err());
    Objective::request_llm(&node, &mut engine, Some("key".to_string()), MODEL).unwrap();
    let outbox = engine.take_outbox();
    assert_eq!(outbox.len(), 1);
    assert_eq!(outbox[0].node_id, id);
    assert!(engine.get_node_by_id(&id).unwrap().flags.contains(NodeFlags::is_requesting()));
}

#[test]
fn objective_answer_adds_suggested_tools() {
    let (mut engine, id) = objective_engine("Find prices");
    let node = engine.get_node_by_id(&id).unwrap().clone();
    let reply = LLMResponse {
        short_project_name_with_spaces: "Prices".to_string(),
        tools_needed_to_accomplish_objective: vec![
            Tool::Crawler(CrawlerSettings {
                is_enabled: ToolEnabled::Yes,
                keywords_to_get_accurate_results_from_web_search: Some(vec!["cheap".to_string(), "deal".to_string()]),
                crawl_link_if_anchor_text_has_any_of_these_keywords: None,
            }),
            Tool::Classifier(ClassifierSettings {
                is_enabled: ToolEnabled::Yes,
                prompt_to_classify_content_as_relevant_to_objective_or_not: Some("Is it a price?".to_string()),
            }),
            Tool::NamedEntityExtraction(vec![EntityName::Organization]),
        ],
    };
    Objective::process(&node, &mut engine, Some(ReplyData::Response(Ok(reply))), None, MODEL).unwrap();
    let suggested = engine.get_node_ids_connected_with_label(&id, &CommonEdgeLabels::Suggests);
    assert_eq!(suggested.len(), 5);
    assert_eq!(engine.get_node_ids_with_label(&NodeLabel::WebSearch).len(), 2);
    assert_eq!(engine.get_node_ids_with_label(&NodeLabel::CrawlerSettings).len(), 1);
    assert!(engine.get_node_by_id(&id).unwrap().flags.contains(NodeFlags::is_processed()));
}

#[test]
fn objective_reply_errors_are_returned_and_fetch_failures_ignored() {
    let (mut engine, id) = objective_engine("Find prices");
    let node = engine.get_node_by_id(&id).unwrap().clone();
    let failure = FetchError { project_id: "test".to_string(), node_id: id, error: "down".to_string() };
    Objective::process(&node, &mut engine, Some(ReplyData::Error(failure)), None, MODEL).unwrap();
    let bad = Err(pixlie_ai::error::PiError::CouldNotParseResponseFromLLM("bad".to_string()));
    assert!(Objective::process(&node, &mut engine, Some(ReplyData::Response(bad)), None, MODEL).is_err());
    assert!(!engine.get_node_by_id(&id).unwrap().flags.contains(NodeFlags::is_processed()));
}

fn page_with_parts(engine: &mut Engine, parts: &[&str]) -> u32 {
    let page = engine
        .get_or_add_node(Payload::Text("<html></html>".to_string()), vec![NodeLabel::WebPage], true, None)
        .unwrap()
        .get_node_id();
    for p in parts {
        let part = engine
            .get_or_add_node(Payload::Text(p.to_string()), vec![NodeLabel::Paragraph, NodeLabel::Partial], true, None)
            .unwrap()
            .get_node_id();
        engine.add_connection((page, part), (CommonEdgeLabels::ParentOf, CommonEdgeLabels::ChildOf));
    }
    page
}

#[test]
fn classifier_prompt_uses_the_question_and_the_page_content() {
    let mut engine = Engine::new("test".to_string());
    engine
        .get_or_add_node(
            Payload::ClassifierSettings(ClassifierSettings {
                is_enabled: ToolEnabled::Yes,
                prompt_to_classify_content_as_relevant_to_objective_or_not: Some("Question: Is it cheap?".to_string()),
            }),
            vec![NodeLabel::ClassifierSettings],
            true,
            None,
        )
        .unwrap();
    let page = page_with_parts(&mut engine, &["First", "Second"]);
    let node = engine.get_node_by_id(&page).unwrap().clone();
    let prompt = Classifier::get_llm_prompt(&node, &engine).unwrap();
    assert_eq!(
        prompt,
        "Is it cheap?\n\n        Content to be classified:\n        First\n\nSecond\n\n        Using the following schema, respond in JSON format:\n        type Classification = { is_relevant: boolean, reason: string, insight_if_classified_as_relevant: string | null, };\n        ```"
    );
}

#[test]
fn classifier_prompt_needs_settings() {
    let mut engine = Engine::new("test".to_string());
    let page = page_with_parts(&mut engine, &["First"]);
    let node = engine.get_node_by_id(&page).unwrap().clone();
    assert!(Classifier::get_llm_prompt(&node, &engine).is_err());
}

#[test]
fn classification_is_recorded_for_the_page() {
    let mut engine = Engine::new("test".to_string());
    let page = page_with_parts(&mut engine, &["First"]);
    let node = engine.get_node_by_id(&page).unwrap().clone();
    let c = Classification { is_relevant: true, reason: "r".to_string(), insight_if_classified_as_relevant: Some("i".to_string()) };
    Classifier::process(&node, &mut engine, Some(ReplyData::Response(Ok(c))), None, MODEL).unwrap();
    let classified = engine.get_node_ids_connected_with_label(&page, &CommonEdgeLabels::Classifies);
    assert_eq!(classified.len(), 1);
    assert!(engine.get_node_by_id(&page).unwrap().flags.contains(NodeFlags::is_processed()));
}

fn add_classification(engine: &mut Engine, insight: &str) {
    engine
        .get_or_add_node(
            Payload::Classification(Classification {
                is_relevant: true,
                reason: "r".to_string(),
                insight_if_classified_as_relevant: Some(insight.to_string()),
            }),
            vec![NodeLabel::Classification],
            true,
            None,
        )
        .unwrap();
}

#[test]
fn conclusion_needs_three_distinct_insights() {
    let (mut engine, _) = objective_engine("Find prices");
    add_classification(&mut engine, "a");
    add_classification(&mut engine, "a");
    add_classification(&mut engine, "  ");
    add_classification(&mut engine, "b");
    assert!(Conclusion::get_insights(&engine).is_err());
    add_classification(&mut engine, "c");
    let (text, n) = Conclusion::get_insights(&engine).unwrap();
    assert_eq!(n, 3);
    assert_eq!(text, "a\n\nb\n\nc");
    let prompt = Conclusion::get_llm_prompt(&engine).unwrap();
    assert_eq!(
        prompt,
        "Objective: Find prices\n\nInsights: a\n\nb\n\nc\n\nUsing the following schema, respond in JSON format:\n\ntype Conclusion = { conclusion_to_objective_based_on_insights: string | null, };\n```"
    );
}

#[test]
fn conclusion_switches_tools_off() {
    let (mut engine, _) = objective_engine("Find prices");
    let crawler = engine
        .get_or_add_node(
            Payload::CrawlerSettings(CrawlerSettings {
                is_enabled: ToolEnabled::Yes,
                keywords_to_get_accurate_results_from_web_search: None,
                crawl_link_if_anchor_text_has_any_of_these_keywords: None,
            }),
            vec![NodeLabel::CrawlerSettings],
            true,
            None,
        )
        .unwrap()
        .get_node_id();
    let holder = engine
        .get_or_add_node(Payload::Conclusion(Conclusion { conclusion_to_objective_based_on_insights: None }), vec![], true, None)
        .unwrap()
        .get_node_id();
    let node = engine.get_node_by_id(&holder).unwrap().clone();
    let blank = Conclusion { conclusion_to_objective_based_on_insights: Some(" ".to_string()) };
    Conclusion::process(&node, &mut engine, Some(ReplyData::Response(Ok(blank))), None, MODEL).unwrap();
    assert!(!engine.get_node_by_id(&holder).unwrap().flags.contains(NodeFlags::is_processed()));
    let reached = Conclusion { conclusion_to_objective_based_on_insights: Some("Done".to_string()) };
    Conclusion::process(&node, &mut engine, Some(ReplyData::Response(Ok(reached))), None, MODEL).unwrap();
    assert!(engine.get_node_by_id(&holder).unwrap().flags.contains(NodeFlags::is_processed()));
    match &engine.get_node_by_id(&crawler).unwrap().payload {
        Payload::CrawlerSettings(s) => assert!(matches!(s.is_enabled, ToolEnabled::No)),
        _ => panic!("expected crawler settings"),
    }
}

#[test]
fn entity_extraction_plan_and_record() {
    let (mut engine, objective) = objective_engine("Find prices");
    engine
        .get_or_add_node(
            Payload::ClassifierSettings(ClassifierSettings {
                is_enabled: ToolEnabled::Yes,
                prompt_to_classify_content_as_relevant_to_objective_or_not: None,
            }),
            vec![NodeLabel::ClassifierSettings],
            true,
            None,
        )
        .unwrap();
    let page = page_with_parts(&mut engine, &["Acme sells"]);
    let node = engine.get_node_by_id(&page).unwrap().clone();
    assert!(EntityExtraction::plan(&node, &engine).unwrap().is_none());
    let kinds = engine
        .get_or_add_node(
            Payload::NamedEntitiesToExtract(vec![EntityName::Organization]),
            vec![NodeLabel::NamedEntitiesToExtract],
            true,
            None,
        )
        .unwrap()
        .get_node_id();
    engine.add_connection((objective, kinds), (CommonEdgeLabels::Suggests, CommonEdgeLabels::SuggestedFor));
    let (content, names) = EntityExtraction::plan(&node, &engine).unwrap().unwrap();
    assert_eq!(content, "Acme sells");
    assert_eq!(names, vec![EntityName::Organization]);
    let found = vec![ExtractedEntity { entity_name: EntityName::Organization, matching_text: "Acme".to_string(), start: Some(0), end: Some(4) }];
    EntityExtraction::record(&node, &mut engine, Ok(found)).unwrap();
    assert_eq!(engine.get_node_ids_with_label(&NodeLabel::ExtractedNamedEntities).len(), 1);
}

#[test]
fn test_disable_settings_logic() {
    let mut test_engine = Engine::new("test".to_string());
    let classifier_node_id = test_engine
        .get_or_add_node(
            Payload::ClassifierSettings(ClassifierSettings {
                is_enabled: ToolEnabled::Yes,
                prompt_to_classify_content_as_relevant_to_objective_or_not: Some("Test prompt".to_string()),
            }),
            vec![NodeLabel::ClassifierSettings, NodeLabel::AddedByUser],
            true,
            None,
        )
        .unwrap()
        .get_node_id();
    let crawler_node_id = test_engine
        .get_or_add_node(
            Payload::CrawlerSettings(CrawlerSettings {
                is_enabled: ToolEnabled::Yes,
                keywords_to_get_accurate_results_from_web_search: Some(vec!["test".to_string()]),
                crawl_link_if_anchor_text_has_any_of_these_keywords: None,
            }),
            vec![NodeLabel::CrawlerSettings, NodeLabel::AddedByUser],
            true,
            None,
        )
        .unwrap()
        .get_node_id();

    let enabled = |engine: &Engine, id: u32| -> bool {
        match &engine.get_node_by_id(&id).unwrap().payload {
            Payload::ClassifierSettings(s) => matches!(s.is_enabled, ToolEnabled::Yes),
            Payload::CrawlerSettings(s) => matches!(s.is_enabled, ToolEnabled::Yes),
            _ => panic!("expected settings"),
        }
    };
    assert!(enabled(&test_engine, classifier_node_id));
    assert!(enabled(&test_engine, crawler_node_id));

    disable_tool_by_label(&mut test_engine, NodeLabel::ClassifierSettings).unwrap();
    assert!(!enabled(&test_engine, classifier_node_id));
    assert!(enabled(&test_engine, crawler_node_id));

    disable_tool_by_label(&mut test_engine, NodeLabel::CrawlerSettings).unwrap();
    assert!(!enabled(&test_engine, crawler_node_id));

    let result = disable_tool_by_label(&mut test_engine, NodeLabel::Objective);
    assert!(result.is_err());

    test_engine.update_node(
        &classifier_node_id,
        Payload::ClassifierSettings(ClassifierSettings {
            is_enabled: ToolEnabled::Yes,
            prompt_to_classify_content_as_relevant_to_objective_or_not: Some("Test prompt".to_string()),
        }),
    );
    test_engine.update_node(
        &crawler_node_id,
        Payload::CrawlerSettings(CrawlerSettings {
            is_enabled: ToolEnabled::Yes,
            keywords_to_get_accurate_results_from_web_search: Some(vec!["test".to_string()]),
            crawl_link_if_anchor_text_has_any_of_these_keywords: None,
        }),
    );
    assert!(enabled(&test_engine, classifier_node_id));
    assert!(enabled(&test_engine, crawler_node_id));

    disable_tools_by_labels(&mut test_engine, vec![NodeLabel::CrawlerSettings, NodeLabel::ClassifierSettings]).unwrap();
    assert!(!enabled(&test_engine, classifier_node_id));
    assert!(!enabled(&test_engine, crawler_node_id));

    let result = disable_tools_by_labels(&mut test_engine, vec![NodeLabel::CrawlerSettings, NodeLabel::Objective]);
    assert!(result.is_err());

    let response_json = r#"{
        "id": "test_id",
        "content": [{
            "type": "text",
            "text": "{\"conclusion_to_objective_based_on_insights\": \"Test conclusion reached\"}"
        }]
    }"#;
    let parsed_conclusion = conclusion_from_reply(response_json);
    match &parsed_conclusion.conclusion_to_objective_based_on_insights {
        Some(conclusion_text) => {
            assert_eq!(conclusion_text, "Test conclusion reached");
            assert!(!conclusion_text.trim().is_empty());
        }
        None => panic!("Conclusion should have content"),
    }

    let empty_response_json = r#"{
        "id": "test_id",
        "content": [{
            "type": "text",
            "text": "{\"conclusion_to_objective_based_on_insights\": null}"
        }]
    }"#;
    let empty_conclusion = conclusion_from_reply(empty_response_json);
    match &empty_conclusion.conclusion_to_objective_based_on_insights {
        Some(_) => panic!("Empty conclusion should be None"),
        None => {}
    }
}

/// Reads a conclusion out of a model reply, through the library's payload
/// extraction.
fn conclusion_from_reply(reply: &str) -> Conclusion {
    let v: serde_json::Value = serde_json::from_str(reply).unwrap();
    let content = v["content"]
        .as_array()
        .unwrap()
        .iter()
        .map(|b| ClaudeResponseContent {
            content_type: b["type"].as_str().unwrap().to_string(),
            text: b["text"].as_str().unwrap().to_string(),
        })
        .collect();
    let response = ClaudeResponse { id: v["id"].as_str().unwrap().to_string(), content };
    let payload = Anthropic::extract_payload(&response, "model").unwrap();
    let c: serde_json::Value = serde_json::from_str(&payload).unwrap();
    Conclusion {
        conclusion_to_objective_based_on_insights: c["conclusion_to_objective_based_on_insights"]
            .as_str()
            .map(|s| s.to_string()),
    }
}

#[test]
fn model_reply_payload_without_code_fence() {
    let response = ClaudeResponse {
        id: "x".to_string(),
        content: vec![ClaudeResponseContent {
            content_type: "text".to_string(),
            text: "```json{\"a\": 1}```".to_string(),
        }],
    };
    assert_eq!(Anthropic::extract_payload(&response, "m").unwrap(), "{\"a\": 1}");
    let two = ClaudeResponse { id: "x".to_string(), content: vec![] };
    assert!(Anthropic::extract_payload(&two, "m").is_err());
}

#[test]
fn text_helpers() {
    assert_eq!(split_second("Question: Is it: cheap", ": "), "Is it");
    assert_eq!(split_second("no separator", ": "), "no separator");
    assert_eq!(split_second("a: b", ": "), "b");
    assert_eq!(join_strings(&vec!["a".to_string(), "b".to_string()], ", "), "a, b");
    assert_eq!(join_strings(&vec![], ", "), "");
}
