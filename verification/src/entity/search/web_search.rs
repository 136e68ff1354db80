use vstd::prelude::*;
use crate::engine::attach::flag_toggled;
use crate::engine::fetching::{fetch_api_outcome, fetch_effect};
use crate::engine::flags::{NodeFlags, IS_PROCESSED_BIT};
use crate::engine::graph::{labelled_ids, Engine};
use crate::engine::labels::{CommonEdgeLabels, NodeId, NodeLabel};
use crate::engine::node::{labels_contain, NodeItem, NodeItemView, Payload, PayloadView};
use crate::engine::ops::connection_effect;
use crate::entity::project_settings::{domain_allowed, ProjectSettings};
use crate::entity::web::link::{link_add_effect, Link};
use crate::entity::web::scraper::unit_outcome;
use crate::error::{PiError, PiErrorKind, PiResult};
use crate::fetch::{FetchRequest, FetchRequestView, HttpMethod, ReplyData};
use crate::web_url::{add_query_pair, parse_url, url_parsed, url_with_pair};

verus! {

/// A search of the web for a term, through the Brave Search API; the node
/// holds the term.
pub struct WebSearch;

/// The endpoint of the Brave Search API for web results.
pub const BRAVE_SEARCH_URL: &'static str = "https://api.search.brave.com/res/v1/web/search";

/// What the Brave Search API answers to a web search.
#[derive(Debug)]
pub struct BraveSearchResponse {
    pub web: Web,
}

/// How the search service read the query.
#[derive(Debug)]
pub struct Query {
    pub original: String,
    pub show_strict_warning: bool,
    pub is_navigational: bool,
    pub is_news_breaking: bool,
    pub spellcheck_off: bool,
    pub country: String,
    pub bad_results: bool,
    pub should_fallback: bool,
    pub postal_code: String,
    pub city: String,
    pub header_country: String,
    pub more_results_available: bool,
    pub state: String,
}

/// An entry of the main ranking of results.
#[derive(Debug)]
pub struct Main {
    pub type_field: String,
    pub index: Option<i64>,
    pub all: bool,
}

/// Video results.
#[derive(Debug)]
pub struct Videos {
    pub type_field: String,
    pub results: Vec<VideoResult>,
    pub mutated_by_goggles: bool,
}

/// One video result.
#[derive(Debug)]
pub struct VideoResult {
    pub type_field: String,
    pub url: String,
    pub title: String,
    pub description: String,
    pub age: Option<String>,
    pub page_age: Option<String>,
    pub video: Video,
    pub meta_url: MetaUrl,
    pub thumbnail: Thumbnail,
}

/// Details of a video.
#[derive(Debug)]
pub struct Video {
    pub duration: Option<String>,
    pub views: Option<i64>,
    pub creator: Option<String>,
    pub publisher: Option<String>,
}

/// The parts of the URL of a video result.
#[derive(Debug)]
pub struct MetaUrl {
    pub scheme: String,
    pub netloc: String,
    pub hostname: String,
    pub favicon: String,
    pub path: String,
}

/// The thumbnail of a video result.
#[derive(Debug)]
pub struct Thumbnail {
    pub src: String,
    pub original: String,
}

/// Web results.
#[derive(Debug)]
pub struct Web {
    pub type_field: String,
    pub results: Vec<WebResult>,
    pub family_friendly: bool,
}

/// One web result: a page with its URL.
#[derive(Debug)]
pub struct WebResult {
    pub title: String,
    pub url: String,
    pub is_source_local: bool,
    pub is_source_both: bool,
    pub description: Option<String>,
    pub page_age: Option<String>,
    pub profile: Option<Profile>,
    pub language: Option<String>,
    pub family_friendly: bool,
    pub type_field: String,
    pub subtype: String,
    pub is_live: bool,
    pub meta_url: Option<MetaUrl2>,
    pub thumbnail: Option<Thumbnail2>,
    pub age: Option<String>,
}

/// The site that published a web result.
#[derive(Debug)]
pub struct Profile {
    pub name: String,
    pub url: String,
    pub long_name: String,
    pub img: String,
}

/// The parts of the URL of a web result.
#[derive(Debug)]
pub struct MetaUrl2 {
    pub scheme: String,
    pub netloc: String,
    pub hostname: String,
    pub favicon: String,
    pub path: String,
}

/// The thumbnail of a web result.
#[derive(Debug)]
pub struct Thumbnail2 {
    pub src: String,
    pub original: String,
    pub logo: bool,
}

/// The project settings of the graph: those of the first node with the
/// `ProjectSettings` label, with its ID; a `GraphError` when that node does
/// not hold them.
pub open spec fn first_project_settings(e: Engine) -> Result<(NodeId, ProjectSettings), PiErrorKind> {
    let ids = labelled_ids(&e, NodeLabel::ProjectSettings);
    if ids.len() == 0 || !e.node_map().contains_key(ids[0]) || !e.node_map()[ids[0]].labels.contains(
        NodeLabel::ProjectSettings,
    ) {
        Err(PiErrorKind::GraphError)
    } else {
        match e.node_map()[ids[0]].payload {
            PayloadView::ProjectSettings(s) => Ok((ids[0], s)),
            _ => Err(PiErrorKind::GraphError),
        }
    }
}

/// True for the request that asks the search service for `url` as the given
/// node with the given key: a GET that accepts JSON and carries the key.
pub open spec fn is_search_request(req: FetchRequestView, id: NodeId, key: String, url: Seq<char>) -> bool {
    &&& req.requesting_node_id == id
    &&& req.method == HttpMethod::Get
    &&& req.url == url
    &&& req.headers.len() == 2
    &&& req.headers[0].0@ == "accept"@ && req.headers[0].1@ == "application/json"@
    &&& req.headers[1].0@ == "x-subscription-token"@ && req.headers[1].1 == key
    &&& req.body is None
}

/// One way a search request is sent: `req` is handed to `fetch_api`.
pub open spec fn search_sent_via(e0: Engine, e1: Engine, id: NodeId, key: String, url: Seq<char>, req: FetchRequestView, r: PiResult<()>) -> bool {
    is_search_request(req, id, key, url) && fetch_effect(&e0, &e1, req, fetch_api_outcome(&e0, req), r)
}

/// What asking the search service for the term of node `n` does: an API key
/// and project settings are needed; a node that holds no text asks nothing.
pub open spec fn search_requested(e0: Engine, e1: Engine, n: NodeItemView, api_key: Option<String>, r: PiResult<()>) -> bool {
    if api_key is None {
        r matches Err(x) && x.kind() == PiErrorKind::ApiKeyNotConfigured && x.message() == "Brave Search"@ && e1 == e0
    } else if first_project_settings(e0) is Err {
        r matches Err(x) && x.kind() == PiErrorKind::GraphError && x.message() == "No ProjectSettings node found"@
            && e1 == e0
    } else if !(n.payload is Text) {
        r is Ok && e1 == e0
    } else {
        match url_with_pair(BRAVE_SEARCH_URL@, "q"@, n.payload->Text_0@) {
            None => r matches Err(x) && x.kind() == PiErrorKind::UrlParseError && x.message() == "Cannot build the search URL"@
                && e1 == e0,
            Some(u) => exists|req: FetchRequestView| #[trigger] search_sent_via(e0, e1, n.id, api_key->0, u, req, r),
        }
    }
}

/// One way a link that the search found is added: the link (`mid` the
/// graph after that, `l` the result) is connected as a suggestion of the
/// search.
pub open spec fn result_link_via(e0: Engine, mid: Engine, e1: Engine, l: PiResult<NodeId>, id: NodeId, url: Seq<char>, r: Result<(), PiErrorKind>) -> bool {
    &&& mid.wf()
    &&& link_add_effect(&e0, &mid, url, seq![NodeLabel::AddedByWebSearch, NodeLabel::Link], Seq::empty(), true, l)
    &&& match l {
        Err(x) => r == Err::<(), PiErrorKind>(x.kind()) && e1 == mid,
        Ok(link_id) => r is Ok && connection_effect(
            &mid,
            &e1,
            (id, link_id),
            (CommonEdgeLabels::Suggests, CommonEdgeLabels::SuggestedFor),
        ),
    }
}

/// What one result of the search does: a URL that does not parse or has no
/// domain is skipped, as is one whose domain the settings do not allow;
/// otherwise its link is added as a suggestion of the search.
pub open spec fn result_step(e0: Engine, e1: Engine, id: NodeId, s: ProjectSettings, settings_id: NodeId, url: Seq<char>, r: Result<(), PiErrorKind>) -> bool {
    match url_parsed(url) {
        None => r is Ok && e1 == e0,
        Some(p) => match p.0 {
            None => r is Ok && e1 == e0,
            Some(d) => if !domain_allowed(&e0, s, settings_id, d) {
                r is Ok && e1 == e0
            } else {
                exists|mid: Engine, l: PiResult<NodeId>| #[trigger] result_link_via(e0, mid, e1, l, id, url, r)
            },
        },
    }
}

/// Result `k` succeeds, from graph `engines[k]` to `engines[k + 1]`.
pub open spec fn result_ok_at(engines: Seq<Engine>, id: NodeId, s: ProjectSettings, settings_id: NodeId, urls: Seq<Seq<char>>, k: int) -> bool {
    result_step(engines[k], engines[k + 1], id, s, settings_id, urls[k], Ok(()))
}

/// The first `n` results succeed, through the graphs `engines`.
pub open spec fn results_prefix(engines: Seq<Engine>, id: NodeId, s: ProjectSettings, settings_id: NodeId, urls: Seq<Seq<char>>, n: int) -> bool {
    &&& 0 <= n <= urls.len()
    &&& engines.len() == n + 1
    &&& forall|k: int| 0 <= k < n ==> #[trigger] result_ok_at(engines, id, s, settings_id, urls, k)
}

/// The results are handled in order, from graph `e0` to `e1`: all of them,
/// or those before the first that fails.
pub open spec fn results_added(e0: Engine, e1: Engine, id: NodeId, s: ProjectSettings, settings_id: NodeId, urls: Seq<Seq<char>>, r: Result<(), PiErrorKind>) -> bool {
    exists|engines: Seq<Engine>, n: int|
        #[trigger] results_prefix(engines, id, s, settings_id, urls, n) && engines[0] == e0 && match r {
            Ok(_) => n == urls.len() && engines[n] == e1,
            Err(_) => n < urls.len() && result_step(engines[n], e1, id, s, settings_id, urls[n], r),
        }
}

/// The URLs of the web results.
pub open spec fn result_urls(v: Seq<WebResult>) -> Seq<Seq<char>> {
    v.map_values(|w: WebResult| w.url@)
}

/// One way the results of a search are applied: they are handled (`mid`
/// the graph after that, `ra` the outcome), then the search is marked as
/// processed.
pub open spec fn results_applied_via(e0: Engine, mid: Engine, e1: Engine, ra: Result<(), PiErrorKind>, id: NodeId, s: ProjectSettings, settings_id: NodeId, urls: Seq<Seq<char>>, r: Result<(), PiErrorKind>) -> bool {
    &&& results_added(e0, mid, id, s, settings_id, urls, ra)
    &&& match ra {
        Err(k) => r == Err::<(), PiErrorKind>(k) && e1 == mid,
        Ok(_) => r is Ok && flag_toggled(mid, e1, id, NodeFlags { bits: IS_PROCESSED_BIT }),
    }
}

/// What applying the results of a search does: project settings are
/// needed; then each result is handled and the search is marked as
/// processed.
pub open spec fn search_results_applied(e0: Engine, e1: Engine, id: NodeId, urls: Seq<Seq<char>>, r: Result<(), PiErrorKind>) -> bool {
    match first_project_settings(e0) {
        Err(k) => r == Err::<(), PiErrorKind>(k) && e1 == e0,
        Ok((settings_id, s)) => exists|mid: Engine, ra: Result<(), PiErrorKind>|
            #[trigger] results_applied_via(e0, mid, e1, ra, id, s, settings_id, urls, r),
    }
}

/// The effect of `WebSearch::process` with these arguments, and its result.
pub open spec fn search_effect(e0: Engine, e1: Engine, n: NodeItemView, data: Option<ReplyData<BraveSearchResponse>>, api_key: Option<String>, r: PiResult<()>) -> bool {
    match data {
        None => search_requested(e0, e1, n, api_key, r),
        Some(ReplyData::Error(_)) => r is Ok && e1 == e0,
        Some(ReplyData::Response(Err(e))) => r == Err::<(), PiError>(e) && e1 == e0,
        Some(ReplyData::Response(Ok(resp))) => search_results_applied(
            e0,
            e1,
            n.id,
            result_urls(resp.web.results@),
            unit_outcome(r),
        ),
    }
}

/// The project settings of the graph, with the ID of their node.
fn find_project_settings(engine: &Engine) -> (r: PiResult<(NodeId, ProjectSettings)>)
    requires
        engine.wf(),
    ensures
        match r {
            Ok(x) => first_project_settings(*engine) == Ok::<(NodeId, ProjectSettings), PiErrorKind>(x),
            Err(e) => first_project_settings(*engine) == Err::<(NodeId, ProjectSettings), PiErrorKind>(e.kind())
                && e.message() == "No ProjectSettings node found"@,
        },
{
    let ids = engine.get_node_ids_with_label(&NodeLabel::ProjectSettings);
    if ids.len() == 0 {
        return Err(PiError::GraphError(String::from_str("No ProjectSettings node found")));
    }
    let id = ids[0];
    match engine.get_node_by_id(&id) {
        Some(node) => {
            if !labels_contain(&node.labels, NodeLabel::ProjectSettings) {
                return Err(PiError::GraphError(String::from_str("No ProjectSettings node found")));
            }
            match &node.payload {
                Payload::ProjectSettings(s) => Ok((id, *s)),
                _ => Err(PiError::GraphError(String::from_str("No ProjectSettings node found"))),
            }
        },
        None => Err(PiError::GraphError(String::from_str("No ProjectSettings node found"))),
    }
}

impl WebSearch {
    /// Asks the search service for web pages about the term of the node.
    pub fn request(node: &NodeItem, engine: &mut Engine, api_key: Option<String>) -> (r: PiResult<()>)
        requires
            old(engine).wf(),
        ensures
            final(engine).wf(),
            search_requested(*old(engine), *final(engine), node@, api_key, r),
    {
        let key = match api_key {
            Some(k) => k,
            None => {
                return Err(PiError::ApiKeyNotConfigured(String::from_str("Brave Search")));
            },
        };
        match find_project_settings(engine) {
            Ok(_) => {},
            Err(e) => {
                return Err(e);
            },
        }
        let term = match &node.payload {
            Payload::Text(t) => t,
            _ => {
                return Ok(());
            },
        };
        proof {
            reveal_strlit("q");
        }
        let url = match add_query_pair(BRAVE_SEARCH_URL, "q", term.as_str()) {
            Some(u) => u,
            None => {
                return Err(PiError::UrlParseError(String::from_str("Cannot build the search URL")));
            },
        };
        let ghost e0 = *engine;
        let ghost k = key;
        let mut request = FetchRequest::new(node.id, url.as_str());
        let mut headers: Vec<(String, String)> = Vec::new();
        headers.push((String::from_str("accept"), String::from_str("application/json")));
        headers.push((String::from_str("x-subscription-token"), key));
        request.headers = headers;
        let ghost rv = request@;
        let r = engine.fetch_api(request);
        assert(search_sent_via(e0, *engine, node.id, k, url@, rv, r));
        assert(node@.payload->Text_0 == *term);
        assert(url_with_pair(BRAVE_SEARCH_URL@, "q"@, node@.payload->Text_0@) == Some(url@));
        assert(api_key->0 == k);
        assert(e0 == *old(engine));
        assert(first_project_settings(e0) is Ok);
        assert(search_sent_via(e0, *engine, node@.id, api_key->0, url_with_pair(BRAVE_SEARCH_URL@, "q"@, node@.payload->Text_0@)->0, rv, r));
        r
    }

    /// Handles one result of the search.
    fn handle_result(node_id: NodeId, engine: &mut Engine, s: &ProjectSettings, settings_id: NodeId, url: &str) -> (r: PiResult<()>)
        requires
            old(engine).wf(),
        ensures
            final(engine).wf(),
            result_step(*old(engine), *final(engine), node_id, *s, settings_id, url@, unit_outcome(r)),
    {
        let parsed = match parse_url(url) {
            Some(p) => p,
            None => {
                return Ok(());
            },
        };
        let domain = match &parsed.domain {
            Some(d) => d,
            None => {
                return Ok(());
            },
        };
        let allowed = match s.is_domain_allowed(&settings_id, domain.as_str(), engine) {
            Ok(b) => b,
            Err(e) => {
                return Err(e);
            },
        };
        if !allowed {
            return Ok(());
        }
        let ghost e0 = *engine;
        let mut labels = Vec::new();
        labels.push(NodeLabel::AddedByWebSearch);
        labels.push(NodeLabel::Link);
        assert(labels@ =~= seq![NodeLabel::AddedByWebSearch, NodeLabel::Link]);
        let no_labels: Vec<NodeLabel> = Vec::new();
        assert(no_labels@ =~= Seq::<NodeLabel>::empty());
        let l = Link::add(engine, url, labels, no_labels, true);
        let ghost mid = *engine;
        let ghost ll = l;
        match l {
            Ok(link_id) => {
                engine.add_connection((node_id, link_id), (CommonEdgeLabels::Suggests, CommonEdgeLabels::SuggestedFor));
                assert(result_link_via(e0, mid, *engine, ll, node_id, url@, Ok(())));
                Ok(())
            },
            Err(e) => {
                assert(result_link_via(e0, mid, *engine, ll, node_id, url@, Err(e.kind())));
                Err(e)
            },
        }
    }

    /// Adds the links that the search found, where the project settings
    /// allow their domains, as suggestions of the search, then marks the
    /// search as processed.
    #[verifier::loop_isolation(false)]
    pub fn apply_results(node: &NodeItem, engine: &mut Engine, response: &BraveSearchResponse) -> (r: PiResult<()>)
        requires
            old(engine).wf(),
        ensures
            final(engine).wf(),
            search_results_applied(*old(engine), *final(engine), node.id, result_urls(response.web.results@), unit_outcome(r)),
    {
        let ghost e0 = *engine;
        let (settings_id, settings) = match find_project_settings(engine) {
            Ok(x) => x,
            Err(e) => {
                return Err(e);
            },
        };
        let results = &response.web.results;
        let ghost urls = result_urls(results@);
        let ghost mut engines: Seq<Engine> = seq![*engine];
        let mut i: usize = 0;
        let mut failed: Option<PiError> = None;
        while i < results.len()
            invariant
                engine.wf(),
                urls == result_urls(results@),
                urls.len() == results@.len(),
                i <= results@.len(),
                failed is None,
                first_project_settings(e0) == Ok::<(NodeId, ProjectSettings), PiErrorKind>((settings_id, settings)),
                results_prefix(engines, node.id, settings, settings_id, urls, i as int),
                engines[0] == e0,
                engines[i as int] == *engine,
            decreases results@.len() - i,
        {
            let ghost prev = engines;
            let ghost before = *engine;
            assert(urls[i as int] == results@[i as int].url@);
            let r = Self::handle_result(node.id, engine, &settings, settings_id, results[i].url.as_str());
            match r {
                Err(e) => {
                    assert(results_prefix(engines, node.id, settings, settings_id, urls, i as int));
                    assert(results_added(e0, *engine, node.id, settings, settings_id, urls, Err(e.kind())));
                    assert(results_applied_via(e0, *engine, *engine, Err(e.kind()), node.id, settings, settings_id, urls, Err(e.kind())));
                    assert(first_project_settings(e0)->Ok_0.0 == settings_id);
                    assert(first_project_settings(e0)->Ok_0.1 == settings);
                    return Err(e);
                },
                Ok(()) => {},
            }
            proof {
                engines = engines.push(*engine);
                assert(result_ok_at(engines, node.id, settings, settings_id, urls, i as int));
                assert forall|k: int| 0 <= k < i + 1 implies #[trigger] result_ok_at(engines, node.id, settings, settings_id, urls, k) by {
                    if k < i {
                        assert(result_ok_at(prev, node.id, settings, settings_id, urls, k));
                        assert(engines[k] == prev[k]);
                        assert(engines[k + 1] == prev[k + 1]);
                    }
                }
            }
            i = i + 1;
        }
        assert(results_prefix(engines, node.id, settings, settings_id, urls, i as int));
        let ghost mid = *engine;
        assert(results_added(e0, mid, node.id, settings, settings_id, urls, Ok(())));
        engine.toggle_flag(&node.id, NodeFlags::is_processed());
        assert(results_applied_via(e0, mid, *engine, Ok(()), node.id, settings, settings_id, urls, Ok(())));
        assert(first_project_settings(e0)->Ok_0.0 == settings_id);
        assert(first_project_settings(e0)->Ok_0.1 == settings);
        Ok(())
    }

    /// Processes a web search: asks the search service when nothing has
    /// arrived yet, adds the links it found when it has answered, and does
    /// nothing when the request failed. A reply that could not be read is
    /// returned as the error.
    pub fn process(node: &NodeItem, engine: &mut Engine, data_from_previous_request: Option<ReplyData<BraveSearchResponse>>, api_key: Option<String>) -> (r: PiResult<()>)
        requires
            old(engine).wf(),
        ensures
            final(engine).wf(),
            search_effect(*old(engine), *final(engine), node@, data_from_previous_request, api_key, r),
    {
        match data_from_previous_request {
            None => Self::request(node, engine, api_key),
            Some(ReplyData::Error(_)) => Ok(()),
            Some(ReplyData::Response(Err(e))) => Err(e),
            Some(ReplyData::Response(Ok(resp))) => Self::apply_results(node, engine, &resp),
        }
    }
}

} // verus!
