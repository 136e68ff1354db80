use pixlie_ai::config::{Settings, SettingsIncompleteReason, SettingsStatus};
use pixlie_ai::crawl_log::{check_logs, CanCrawl, Logs};
use pixlie_ai::engine::api::{ClassifiedItem, EngineRequestPayload, EntityGroup};
use pixlie_ai::engine::flags::{APINodeFlags, NodeFlags};
use pixlie_ai::engine::query_params::{parse_ids, QueryClassifications, QueryEdges, QueryEntities, QueryNodes};
use pixlie_ai::notifier::{EmailConfig, EmailNotification, EmailNotifier};
use pixlie_ai::llm_models::{AIModelFeatures, LargeLanguageModel};
use pixlie_ai::text::{contains_str, decimal_string, ends_with, signed_decimal_string, split_second};
use pixlie_ai::workspace::{APIProvider, WorkspaceCollection, WorkspaceUpdate};

fn can(r: &CanCrawl) -> bool {
    matches!(r, CanCrawl::Yes)
}

fn refusal(r: &CanCrawl) -> String {
    match r {
        CanCrawl::Yes => String::new(),
        CanCrawl::No(m) => m.clone(),
    }
}

#[test]
fn first_fetch_of_a_domain_is_allowed_and_logged() {
    let mut logs = Logs { domains: vec![] };
    let r = check_logs("a.com", "https://a.com/x", &mut logs, 10_000);
    assert!(can(&r));
    assert_eq!(logs.domains.len(), 1);
    assert_eq!(logs.domains[0].domain, "a.com");
    assert_eq!(logs.domains[0].last_fetched_at, 10_000);
    assert!(logs.domains[0].per_url.is_empty());
}

#[test]
fn domain_fetched_within_two_seconds_is_refused() {
    let mut logs = Logs { domains: vec![] };
    check_logs("a.com", "https://a.com/x", &mut logs, 10_000);
    let r = check_logs("a.com", "https://a.com/y", &mut logs, 12_999);
    assert_eq!(refusal(&r), "Domain was recently fetched from, cannot fetch now");
    assert!(logs.domains[0].per_url.is_empty());
}

#[test]
fn url_log_after_the_domain_wait() {
    let mut logs = Logs { domains: vec![] };
    check_logs("a.com", "https://a.com/x", &mut logs, 10_000);
    // three whole seconds later a new URL is allowed and logged
    assert!(can(&check_logs("a.com", "https://a.com/x", &mut logs, 13_000)));
    assert_eq!(logs.domains[0].per_url, vec![("https://a.com/x".to_string(), 13_000)]);
    // the same URL within two seconds of its last fetch is refused
    let r = check_logs("a.com", "https://a.com/x", &mut logs, 14_500);
    assert_eq!(refusal(&r), "URL was recently fetched from, cannot fetch now");
    assert_eq!(logs.domains[0].per_url, vec![("https://a.com/x".to_string(), 13_000)]);
    // more than two whole seconds after its last fetch it is allowed again
    assert!(can(&check_logs("a.com", "https://a.com/x", &mut logs, 18_000)));
    assert_eq!(logs.domains[0].per_url, vec![("https://a.com/x".to_string(), 18_000)]);
}

#[test]
fn url_fetched_one_second_ago_is_refused() {
    let mut logs = Logs { domains: vec![] };
    check_logs("a.com", "https://a.com/y", &mut logs, 10_000);
    assert!(can(&check_logs("a.com", "https://a.com/x", &mut logs, 19_000)));
    let r = check_logs("a.com", "https://a.com/x", &mut logs, 20_000);
    assert_eq!(refusal(&r), "URL was recently fetched from, cannot fetch now");
}

#[test]
fn node_query_by_label_ids_or_time() {
    let q = QueryNodes { label: Some("Link".to_string()), ids: Some("x".to_string()), since: None };
    assert!(matches!(q.request_payload(), Ok(EngineRequestPayload::GetNodesWithLabel(l)) if l == "Link"));
    let q = QueryNodes { label: None, ids: Some("3,+10,0".to_string()), since: Some(5) };
    assert!(matches!(q.request_payload(), Ok(EngineRequestPayload::GetNodesWithIds(v)) if v == vec![3, 10, 0]));
    let q = QueryNodes { label: None, ids: None, since: Some(77) };
    assert!(matches!(q.request_payload(), Ok(EngineRequestPayload::GetAllNodes(77))));
    let q = QueryNodes { label: None, ids: None, since: None };
    assert!(matches!(q.request_payload(), Ok(EngineRequestPayload::GetAllNodes(0))));
    assert!(matches!(QueryEdges { since: None }.request_payload(), EngineRequestPayload::GetAllEdges(0)));
    assert!(matches!(QueryEdges { since: Some(9) }.request_payload(), EngineRequestPayload::GetAllEdges(9)));
}

#[test]
fn id_lists_parse_like_u32() {
    assert_eq!(parse_ids("1,22,333"), Some(vec![1, 22, 333]));
    assert_eq!(parse_ids("4294967295"), Some(vec![4294967295]));
    assert_eq!(parse_ids("4294967296"), None);
    assert_eq!(parse_ids("1,,2"), None);
    assert_eq!(parse_ids(""), None);
    assert_eq!(parse_ids("-1"), None);
    assert_eq!(parse_ids("1 "), None);
}

fn item(url: &str, relevant: bool) -> ClassifiedItem {
    ClassifiedItem { url: url.to_string(), is_relevant: relevant, reason: "r".to_string(), insight: None }
}

#[test]
fn classification_filter_keeps_order() {
    let items = vec![item("a", true), item("b", false), item("c", true)];
    let all = QueryClassifications { is_relevant: None }.filter(items.clone());
    assert_eq!(all.iter().map(|c| c.url.as_str()).collect::<Vec<_>>(), vec!["a", "b", "c"]);
    let yes = QueryClassifications { is_relevant: Some(true) }.filter(items.clone());
    assert_eq!(yes.iter().map(|c| c.url.as_str()).collect::<Vec<_>>(), vec!["a", "c"]);
    let no = QueryClassifications { is_relevant: Some(false) }.filter(items);
    assert_eq!(no.iter().map(|c| c.url.as_str()).collect::<Vec<_>>(), vec!["b"]);
}

#[test]
fn entity_filter_by_kind_name() {
    let groups = vec![
        EntityGroup { entity_name: "Person".to_string(), extracted_text: vec!["Ada".to_string()] },
        EntityGroup { entity_name: "Place".to_string(), extracted_text: vec!["Pune".to_string()] },
        EntityGroup { entity_name: "Person".to_string(), extracted_text: vec!["Alan".to_string()] },
    ];
    let people = QueryEntities { entity_name: Some("Person".to_string()) }.filter(groups);
    assert_eq!(people.len(), 2);
    assert_eq!(people[0].extracted_text, vec!["Ada".to_string()]);
    assert_eq!(people[1].extracted_text, vec!["Alan".to_string()]);
}

#[test]
fn flags_toggle_and_list() {
    let mut f = NodeFlags::empty();
    assert_eq!(APINodeFlags::from_node_flags(&f), vec![]);
    f.toggle(NodeFlags::is_requesting());
    f.toggle(NodeFlags::had_error());
    assert!(f.contains(NodeFlags::is_requesting()));
    assert!(!f.contains(NodeFlags::is_processed()));
    assert_eq!(APINodeFlags::from_node_flags(&f), vec![APINodeFlags::IsRequesting, APINodeFlags::HadError]);
    f.toggle(NodeFlags::is_requesting());
    assert_eq!(f, NodeFlags::had_error());
    f.toggle(NodeFlags::had_error());
    assert_eq!(f, NodeFlags::empty());
}

#[test]
fn workspace_keys_are_replaced_and_empty_keys_are_missing() {
    let mut w = WorkspaceCollection::new_default("u-1".to_string());
    assert_eq!(w.name, "Default");
    assert!(w.get_api_key(&APIProvider::Anthropic).is_none());
    w.set_api_key(APIProvider::Anthropic, "k1".to_string());
    w.set_api_key(APIProvider::BraveSearch, "b1".to_string());
    w.set_api_key(APIProvider::Anthropic, "k2".to_string());
    assert_eq!(w.get_api_key(&APIProvider::Anthropic), Some(&"k2".to_string()));
    assert_eq!(w.get_api_key(&APIProvider::BraveSearch), Some(&"b1".to_string()));
    w.set_api_key(APIProvider::SendGrid, String::new());
    assert!(w.get_api_key(&APIProvider::SendGrid).is_none());
    let update = WorkspaceUpdate {
        name: Some("Mine".to_string()),
        description: None,
        anthropic_api_key: None,
        brave_search_api_key: Some("b2".to_string()),
        sendgrid_api_key: None,
        sendgrid_sender_email: Some("s@x.com".to_string()),
        sendgrid_receiver_email: None,
    };
    w.apply_update(&update);
    // the name is not taken over; keys and emails that the update sets are
    assert_eq!(w.name, "Default");
    assert_eq!(w.get_api_key(&APIProvider::Anthropic), Some(&"k2".to_string()));
    assert_eq!(w.get_api_key(&APIProvider::BraveSearch), Some(&"b2".to_string()));
    assert_eq!(w.sendgrid_sender_email, Some("s@x.com".to_string()));
    assert_eq!(w.sendgrid_receiver_email, None);
    assert_eq!(w.uuid, "u-1");
    let update = WorkspaceUpdate {
        name: None,
        description: None,
        anthropic_api_key: None,
        brave_search_api_key: None,
        sendgrid_api_key: Some("SG.k".to_string()),
        sendgrid_sender_email: None,
        sendgrid_receiver_email: Some("r@x.com".to_string()),
    };
    w.apply_update(&update);
    assert_eq!(w.get_api_key(&APIProvider::SendGrid), Some(&"SG.k".to_string()));
    assert_eq!(w.sendgrid_sender_email, Some("s@x.com".to_string()));
    assert_eq!(w.sendgrid_receiver_email, Some("r@x.com".to_string()));
}

#[test]
fn settings_status_merge_and_hostname_paths() {
    let mut s = Settings { path_to_storage_dir: None, hostname: None };
    match s.get_settings_status() {
        SettingsStatus::Incomplete(r) => assert_eq!(r, vec![SettingsIncompleteReason::StorageDirNotConfigured]),
        SettingsStatus::Complete => panic!("storage dir is not set"),
    }
    assert!(s.get_hostname("/cfg").is_none());
    s.merge_updates(&Settings { path_to_storage_dir: Some("/data".to_string()), hostname: None });
    s.merge_updates(&Settings { path_to_storage_dir: None, hostname: Some("h.example".to_string()) });
    assert_eq!(s.path_to_storage_dir, Some("/data".to_string()));
    assert!(matches!(s.get_settings_status(), SettingsStatus::Complete));
    let h = s.get_hostname("/cfg").unwrap();
    assert_eq!(h.hostname, "h.example");
    assert_eq!(h.path_to_certificate, "/cfg/pixlie_ai/h.example/Certificates/cert.pem");
    assert_eq!(h.path_to_key, "/cfg/pixlie_ai/h.example/Certificates/key.pem");
}

#[test]
fn openai_models_are_listed() {
    let m = LargeLanguageModel::get_models_for_openai();
    assert_eq!(m.len(), 3);
    assert_eq!(m[0].api_name, "gpt-3.5-turbo");
    assert_eq!(m[0].context_window, Some(16385));
    assert_eq!(m[1].latest_version_api_name, Some("gpt-4-turbo-2024-04-09".to_string()));
    assert_eq!(m[2].label, "GPT-4o");
    assert_eq!(m[2].features, vec![AIModelFeatures::TextGeneration, AIModelFeatures::ImageRecognition]);
}

#[test]
fn decimal_notation() {
    assert_eq!(decimal_string(0), "0");
    assert_eq!(decimal_string(10_099), "10099");
    assert_eq!(decimal_string(u64::MAX), "18446744073709551615");
    assert_eq!(signed_decimal_string(-42), "-42");
    assert_eq!(signed_decimal_string(i64::MIN), "-9223372036854775808");
    assert_eq!(signed_decimal_string(7), "7");
}

#[test]
fn substring_helpers() {
    assert!(ends_with("page.html", ".html"));
    assert!(!ends_with("html", "page.html"));
    assert!(contains_str("a needle here", "needle"));
    assert!(!contains_str("a needl", "needle"));
    assert!(contains_str("x", ""));
    assert_eq!(split_second("a::b::c", "::"), "b");
    assert_eq!(split_second("a::b", "::"), "b");
    assert_eq!(split_second("abc", "::"), "abc");
}

fn notifier(key: &str, from: &str) -> EmailNotifier {
    EmailNotifier::new_with_config(EmailConfig {
        sendgrid_api_key: key.to_string(),
        from_email: from.to_string(),
        from_name: "Pixlie AI Monitor".to_string(),
        to_email: "me@x.com".to_string(),
    })
}

#[test]
fn content_notification_subject_and_body() {
    let n = notifier("", "");
    let items = vec!["first".to_string(), "second".to_string()];
    let e = n.create_content_change_notification("me@x.com", "https://a.com", "Find jobs", items);
    assert_eq!(e.subject, "🔍 New relevant content found: Find jobs");
    assert_eq!(
        e.body,
        "Hello!\n\nPixlie AI has found 2 new relevant items for your objective:\n\n**Objective:** Find jobs\n**Source:** https://a.com\n\n**New Relevant Items:**\n1. first\n2. second\n\n---\nThis email was sent by Pixlie AI content monitoring.\nView source: https://a.com\n"
    );
    let one = n.format_email_body("u", "o", &vec!["x".to_string()]);
    assert!(one.contains("Pixlie AI has found 1 new relevant item for your objective"));
}

#[test]
fn long_objective_is_cut_in_the_subject() {
    let n = notifier("", "");
    let objective = "a".repeat(60);
    let e = n.create_insight_notification("me@x.com", "https://a.com", &objective, "insight", "reason");
    assert_eq!(e.subject, format!("🎯 Relevant webpage classified: {}...", "a".repeat(50)));
    assert_eq!(e.relevant_items, vec!["insight".to_string()]);
    assert!(e.body.starts_with("Hello!\n\nPixlie AI has classified a webpage as relevant"));
    assert!(e.body.contains("**AI Insight:**\ninsight\n\n**Reason for Classification:**\nreason\n\n"));
}

#[test]
fn logged_notification_lines() {
    let n = notifier("", "");
    let e = EmailNotification {
        to: "me@x.com".to_string(),
        subject: "S".to_string(),
        body: "b".repeat(210),
        url: "https://a.com".to_string(),
        relevant_items: vec!["one".to_string(), "two".to_string()],
    };
    let lines = n.log_notification(&e);
    assert_eq!(lines.len(), 9);
    assert_eq!(lines[0], "📧 EMAIL NOTIFICATION");
    assert_eq!(lines[1], "   To: me@x.com");
    assert_eq!(lines[4], "   Relevant Items: 2");
    assert_eq!(lines[5], "   1. one");
    assert_eq!(lines[6], "   2. two");
    assert_eq!(lines[7], format!("   Body Preview: {}...", "b".repeat(200)));
    assert_eq!(lines[8], "📧 END EMAIL NOTIFICATION");
}

#[test]
fn notifier_configuration_status() {
    let n = notifier("", "");
    assert!(!n.is_configured());
    assert!(!n.sends_email());
    assert_eq!(n.get_config_status(), "SendGrid API Key: NOT_SET, From: Pixlie AI Monitor <NOT_SET>");
    let n = notifier("SG.secret", "bot@x.com");
    assert!(n.is_configured());
    assert!(n.sends_email());
    assert_eq!(n.get_config_status(), "SendGrid API Key: SG.*** (9 chars), From: Pixlie AI Monitor <bot@x.com>");
}
