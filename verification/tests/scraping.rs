use pixlie_ai::engine::graph::Engine;
use pixlie_ai::engine::labels::{CommonEdgeLabels, NodeId, NodeLabel};
use pixlie_ai::engine::node::Payload;
use pixlie_ai::entity::project_settings::ProjectSettings;
use pixlie_ai::entity::web::html::{clean_text, trim};
use pixlie_ai::entity::web::link::Link;
use pixlie_ai::entity::web::scraper::scrape;
use pixlie_ai::entity::web::web_page::{get_link_of_webpage, get_metadata_of_webpage, WebPage};
use pixlie_ai::fetch::{ExternalData, FetchResponse};

const PAGE: &str = "<html><head><title>  A   small\n page </title>\
<meta property=\"og:description\" content=\"About things\">\
<meta name=\"author\" content=\"Ann\">\
<link rel=\"icon\" href=\"/favicon.ico\"></head>\
<body><h1>Main heading</h1><p>First paragraph.</p>\
<ul><li>One</li><li>Two <b>bold</b></li></ul>\
<a href=\"/next\">Next page</a>\
<a href=\"#top\">Top</a>\
<a href=\"https://other.org/page\">Elsewhere</a>\
</body></html>";

fn texts_with_label(engine: &Engine, label: NodeLabel) -> Vec<String> {
    let mut out = vec![];
    for id in engine.get_node_ids_with_label(&label) {
        if let Some(node) = engine.get_node_by_id(&id) {
            if let Payload::Text(t) = &node.payload {
                out.push(t.clone());
            }
        }
    }
    out
}

fn page_for(engine: &mut Engine, url: &str, contents: &str) -> (NodeId, NodeId) {
    let link_id = Link::add(engine, url, vec![NodeLabel::Link, NodeLabel::AddedByUser], vec![], true).unwrap();
    let link = engine.get_node_by_id(&link_id).unwrap().clone();
    let response = FetchResponse {
        project_id: "p".to_string(),
        node_id: link_id,
        url: url.to_string(),
        contents: contents.to_string(),
    };
    Link::process(&link, engine, Some(ExternalData::Response(response))).unwrap();
    let pages = engine.get_node_ids_connected_with_label(&link_id, &CommonEdgeLabels::PathOf);
    assert_eq!(pages.len(), 1);
    (link_id, pages[0])
}

#[test]
fn scrape_adds_title_heading_paragraph_and_lists() {
    let mut engine = Engine::new("p".to_string());
    let (link_id, page_id) = page_for(&mut engine, "https://example.com/start", PAGE);
    let (_, found_link) = get_link_of_webpage(&engine, &page_id).unwrap();
    assert_eq!(found_link, link_id);
    let page = engine.get_node_by_id(&page_id).unwrap().clone();
    WebPage::process(&page, &mut engine, None).unwrap();

    assert_eq!(texts_with_label(&engine, NodeLabel::Title), vec!["A small page".to_string()]);
    assert_eq!(texts_with_label(&engine, NodeLabel::Heading), vec!["Main heading".to_string()]);
    assert_eq!(texts_with_label(&engine, NodeLabel::Paragraph), vec!["First paragraph.".to_string()]);
    assert_eq!(
        texts_with_label(&engine, NodeLabel::ListItem),
        vec!["One".to_string(), "Twobold".to_string()]
    );
    assert_eq!(engine.get_node_ids_with_label(&NodeLabel::UnorderedPoints).len(), 1);
    let list_id = engine.get_node_ids_with_label(&NodeLabel::UnorderedPoints)[0];
    assert_eq!(engine.get_node_ids_connected_with_label(&list_id, &CommonEdgeLabels::ParentOf).len(), 2);
}

#[test]
fn scrape_adds_links_but_not_anchors_within_the_page() {
    let mut engine = Engine::new("p".to_string());
    let (_, page_id) = page_for(&mut engine, "https://example.com/start", PAGE);
    let page = engine.get_node_by_id(&page_id).unwrap().clone();
    scrape(&page, &mut engine).unwrap();
    let children = engine.get_node_ids_connected_with_label(&page_id, &CommonEdgeLabels::ParentOf);
    let mut paths = vec![];
    for id in children {
        if let Payload::Link(l) = &engine.get_node_by_id(&id).unwrap().payload {
            paths.push(l.get_full_link());
        }
    }
    assert_eq!(paths, vec!["/next".to_string(), "/page".to_string()]);
    assert_eq!(texts_with_label(&engine, NodeLabel::DomainName), vec!["example.com".to_string(), "other.org".to_string()]);
}

#[test]
fn scrape_records_metadata_of_the_page() {
    let mut engine = Engine::new("p".to_string());
    let (_, page_id) = page_for(&mut engine, "https://example.com/start", PAGE);
    let page = engine.get_node_by_id(&page_id).unwrap().clone();
    scrape(&page, &mut engine).unwrap();
    let ids = engine.get_node_ids_with_label(&NodeLabel::WebMetadata);
    assert_eq!(ids.len(), 1);
    match &engine.get_node_by_id(&ids[0]).unwrap().payload {
        Payload::WebMetadata(m) => {
            assert_eq!(m.url, Some("https://example.com/start".to_string()));
            assert_eq!(m.title, Some("A small page".to_string()));
            assert_eq!(m.description, Some("About things".to_string()));
            assert_eq!(m.author, Some("Ann".to_string()));
            assert_eq!(m.favicon, Some("https://example.com/favicon.ico".to_string()));
            assert_eq!(m.image, None);
        }
        _ => panic!("expected metadata"),
    }
    // The page's metadata node is a child of the page, found by `ParentOf`.
    assert!(get_metadata_of_webpage(&engine, &page_id).is_err());
}

#[test]
fn scrape_leaves_text_that_is_not_html() {
    let mut engine = Engine::new("p".to_string());
    let (_, page_id) = page_for(&mut engine, "https://example.com/notes.txt", "just some notes");
    let page = engine.get_node_by_id(&page_id).unwrap().clone();
    scrape(&page, &mut engine).unwrap();
    assert!(engine.get_node_ids_with_label(&NodeLabel::Paragraph).is_empty());
    assert_eq!(engine.get_node_ids_with_label(&NodeLabel::WebMetadata).len(), 1);
}

#[test]
fn scrape_follows_no_links_when_data_comes_only_from_specified_links() {
    let mut engine = Engine::new("p".to_string());
    let (link_id, page_id) = page_for(&mut engine, "https://example.com/start", PAGE);
    let settings = ProjectSettings {
        only_extract_data_from_specified_links: true,
        only_crawl_direct_links_from_specified_links: false,
        only_crawl_within_domains_of_specified_links: false,
    };
    let sid = engine
        .get_or_add_node(Payload::ProjectSettings(settings), vec![NodeLabel::ProjectSettings], true, None)
        .unwrap()
        .get_node_id();
    engine.add_connection((link_id, sid), (CommonEdgeLabels::RelatedTo, CommonEdgeLabels::RelatedTo));
    let page = engine.get_node_by_id(&page_id).unwrap().clone();
    scrape(&page, &mut engine).unwrap();
    assert_eq!(engine.get_node_ids_with_label(&NodeLabel::Link).len(), 1);
    assert_eq!(texts_with_label(&engine, NodeLabel::Heading), vec!["Main heading".to_string()]);
}

#[test]
fn scrape_stays_within_domains_of_specified_links() {
    let mut engine = Engine::new("p".to_string());
    let (link_id, page_id) = page_for(&mut engine, "https://example.com/start", PAGE);
    let settings = ProjectSettings {
        only_extract_data_from_specified_links: false,
        only_crawl_direct_links_from_specified_links: false,
        only_crawl_within_domains_of_specified_links: true,
    };
    let sid = engine
        .get_or_add_node(Payload::ProjectSettings(settings), vec![NodeLabel::ProjectSettings], true, None)
        .unwrap()
        .get_node_id();
    engine.add_connection((sid, link_id), (CommonEdgeLabels::RelatedTo, CommonEdgeLabels::RelatedTo));
    let page = engine.get_node_by_id(&page_id).unwrap().clone();
    scrape(&page, &mut engine).unwrap();
    let children = engine.get_node_ids_connected_with_label(&page_id, &CommonEdgeLabels::ParentOf);
    let mut paths = vec![];
    for id in children {
        if let Payload::Link(l) = &engine.get_node_by_id(&id).unwrap().payload {
            paths.push(l.get_full_link());
        }
    }
    assert_eq!(paths, vec!["/next".to_string()]);
}

#[test]
fn scrape_of_a_page_without_link_is_an_error() {
    let mut engine = Engine::new("p".to_string());
    let id = engine
        .get_or_add_node(Payload::Text(PAGE.to_string()), vec![NodeLabel::WebPage], true, None)
        .unwrap()
        .get_node_id();
    let page = engine.get_node_by_id(&id).unwrap().clone();
    assert!(scrape(&page, &mut engine).is_err());
}

#[test]
fn clean_text_and_trim_collapse_white_space() {
    assert_eq!(clean_text("  a \n\t b   c "), "a b c");
    assert_eq!(clean_text(""), "");
    assert_eq!(trim("  x y \n"), "x y");
    assert_eq!(trim(" \t "), "");
}
