use vstd::prelude::*;
use crate::engine::attach::{additions_view, all_attached, attach_all, flag_toggled};
use crate::engine::flags::{NodeFlags, IS_PROCESSED_BIT};
use crate::engine::graph::{first_where, labelled_ids, lemma_first_where_at, lemma_first_where_none, lemma_ids_with_label, Engine};
use crate::engine::labels::{CommonEdgeLabels, NodeId, NodeLabel};
use crate::engine::node::{clone_labels, labels_contain, NodeItem, NodeItemView, Payload, PayloadView};
use crate::entity::crawler::CrawlerSettings;
use crate::entity::pixlie::{state_prompt, LLMResponse, ProjectState, Tool};
use crate::entity::project_settings::ProjectSettings;
use crate::entity::web::scraper::{settings_of_link, unit_outcome};
use crate::error::{PiError, PiErrorKind, PiResult};
use crate::fetch::ReplyData;
use crate::services::anthropic::{prompt_sent, Anthropic};
use crate::text::str_eq;

verus! {

/// An objective of a project: a node with the `Objective` label whose text
/// states what the project should achieve.
pub struct Objective;

/// True when the node is an objective with the given text.
pub open spec fn is_objective_with(n: NodeItemView, topic: Seq<char>) -> bool {
    n.labels.contains(NodeLabel::Objective) && (n.payload matches PayloadView::Text(t) && t@ == topic)
}

/// The test that an ID names an objective node, present in the graph, with
/// the given text.
pub open spec fn objective_pred(e: Engine, topic: Seq<char>) -> spec_fn(NodeId) -> bool {
    |id: NodeId| e.node_map().contains_key(id) && is_objective_with(e.node_map()[id], topic)
}

/// The first objective node, in the order nodes were added, with the text.
pub open spec fn objective_by_text(e: Engine, topic: Seq<char>) -> Option<NodeId> {
    first_where(labelled_ids(&e, NodeLabel::Objective), objective_pred(e, topic))
}

/// True when the node is an objective that holds its text.
pub open spec fn is_objective_text(n: NodeItemView) -> bool {
    n.payload is Text && n.labels.contains(NodeLabel::Objective)
}

/// The project settings that apply to a node: those of the first node it
/// has a `RelatedTo` edge to that holds project settings.
pub open spec fn settings_for(e: Engine, id: NodeId) -> Option<ProjectSettings> {
    match settings_of_link(e, id) {
        Some((_, p)) => Some(p),
        None => None,
    }
}

/// Whether the schema asks for web search keywords: always, except for an
/// objective whose project crawls only the links it was given.
pub open spec fn keywords_wanted(e: Engine, n: NodeItemView) -> bool {
    !(is_objective_text(n) && (settings_for(e, n.id) matches Some(p) && p.only_crawl_direct_links_from_specified_links))
}

/// The schema of crawler settings, with or without the web search keywords.
pub open spec fn crawler_schema(with_keywords: bool) -> Seq<char> {
    if with_keywords {
        "type CrawlerSettings = { keywords_to_search_the_web_to_get_starting_urls: Array<string>, crawl_link_if_anchor_text_has_any_of_these_keywords: Array<string> | null, };"@
    } else {
        "type CrawlerSettings = { crawl_link_if_anchor_text_has_any_of_these_keywords: Array<string> | null, };"@
    }
}

/// The schema of classifier settings; the prompt is required for an
/// objective.
pub open spec fn classifier_schema(required: bool) -> Seq<char> {
    if required {
        "type ClassifierSettings = { prompt_to_classify_content_as_relevant_to_objective_or_not: string, };"@
    } else {
        "type ClassifierSettings = { prompt_to_classify_content_as_relevant_to_objective_or_not: string | null, };"@
    }
}

/// The schema that the model answers an objective in: crawler settings,
/// classifier settings, entity names, tools and the response, one per line.
pub open spec fn response_schema(e: Engine, n: NodeItemView) -> Seq<char> {
    crawler_schema(keywords_wanted(e, n)) + "\n"@ + classifier_schema(is_objective_text(n)) + "\n"@
        + "type EntityName = \"Person\" | \"Organization\" | \"Date\" | \"Place\";"@ + "\n"@
        + "type Tool = { \"Crawler\": CrawlerSettings } | { \"Classifier\": ClassifierSettings } | { \"NamedEntityExtraction\": Array<EntityName> };"@
        + "\n"@
        + "type LLMResponse = { short_project_name_with_spaces: string, tools_needed_to_accomplish_objective: Array<Tool>, };"@
}

/// The prompt sent to the model for an objective with text `objective`.
pub open spec fn objective_prompt(e: Engine, n: NodeItemView, objective: Seq<char>) -> Seq<char> {
    state_prompt(settings_for(e, n.id), objective, response_schema(e, n))
}

/// What asking the model about an objective does: the node must be an
/// objective that holds text (else a `GraphError`) and an API key must be
/// given; then the request for the objective's prompt is handed to
/// `fetch_api`.
pub open spec fn objective_requested(e0: Engine, e1: Engine, n: NodeItemView, api_key: Option<String>, model: Seq<char>, r: PiResult<()>) -> bool {
    if !n.labels.contains(NodeLabel::Objective) {
        r matches Err(x) && x.kind() == PiErrorKind::GraphError && x.message() == "Node is not an Objective"@ && e1 == e0
    } else if !(n.payload is Text) {
        r matches Err(x) && x.kind() == PiErrorKind::GraphError
            && x.message() == "Expected an Objective node with Payload::Text"@ && e1 == e0
    } else {
        prompt_sent(e0, e1, n.id, api_key, model, objective_prompt(e0, n, n.payload->Text_0@), r)
    }
}

/// A web search suggested by the model for each keyword.
pub open spec fn search_additions(ks: Seq<String>) -> Seq<(PayloadView, Seq<NodeLabel>)> {
    ks.map_values(|k: String| (PayloadView::Text(k), seq![NodeLabel::AddedByAI, NodeLabel::WebSearch]))
}

/// The nodes that one tool suggests: its settings and, for the crawler, a
/// web search for each keyword.
pub open spec fn additions_of_tool(t: Tool) -> Seq<(PayloadView, Seq<NodeLabel>)> {
    match t {
        Tool::Crawler(c) => seq![
            (PayloadView::CrawlerSettings(c@), seq![NodeLabel::AddedByAI, NodeLabel::CrawlerSettings]),
        ] + match c@.keywords_to_get_accurate_results_from_web_search {
            Some(ks) => search_additions(ks),
            None => Seq::empty(),
        },
        Tool::Classifier(c) => seq![
            (PayloadView::ClassifierSettings(c), seq![NodeLabel::AddedByAI, NodeLabel::ClassifierSettings]),
        ],
        Tool::NamedEntityExtraction(v) => seq![
            (PayloadView::NamedEntitiesToExtract(v@), seq![NodeLabel::AddedByAI, NodeLabel::NamedEntitiesToExtract]),
        ],
    }
}

/// The nodes that the tools suggest, tool by tool.
pub open spec fn tool_additions(tools: Seq<Tool>) -> Seq<(PayloadView, Seq<NodeLabel>)>
    decreases tools.len(),
{
    if tools.len() == 0 {
        Seq::empty()
    } else {
        tool_additions(tools.drop_last()) + additions_of_tool(tools.last())
    }
}

/// One way the answer of the model is applied to an objective: each node
/// the tools suggest is attached to the objective (`mid` the graph after
/// that, `ra` its outcome), then the objective is marked as processed.
pub open spec fn tools_applied_via(e0: Engine, mid: Engine, e1: Engine, ra: Result<(), PiErrorKind>, id: NodeId, tools: Seq<Tool>, r: Result<(), PiErrorKind>) -> bool {
    &&& all_attached(e0, mid, id, tool_additions(tools), (CommonEdgeLabels::Suggests, CommonEdgeLabels::SuggestedFor), ra)
    &&& match ra {
        Err(k) => r == Err::<(), PiErrorKind>(k) && e1 == mid,
        Ok(_) => r is Ok && flag_toggled(mid, e1, id, NodeFlags { bits: IS_PROCESSED_BIT }),
    }
}

/// The answer of the model is applied to the objective `id`.
pub open spec fn tools_applied(e0: Engine, e1: Engine, id: NodeId, tools: Seq<Tool>, r: Result<(), PiErrorKind>) -> bool {
    exists|mid: Engine, ra: Result<(), PiErrorKind>| #[trigger] tools_applied_via(e0, mid, e1, ra, id, tools, r)
}

/// The effect of `Objective::process` with these arguments, and its result.
pub open spec fn objective_effect(e0: Engine, e1: Engine, n: NodeItemView, data: Option<ReplyData<LLMResponse>>, api_key: Option<String>, model: Seq<char>, r: PiResult<()>) -> bool {
    match data {
        None => objective_requested(e0, e1, n, api_key, model, r),
        Some(ReplyData::Error(_)) => r is Ok && e1 == e0,
        Some(ReplyData::Response(Err(e))) => r == Err::<(), PiError>(e) && e1 == e0,
        Some(ReplyData::Response(Ok(reply))) => tools_applied(
            e0,
            e1,
            n.id,
            reply.tools_needed_to_accomplish_objective@,
            unit_outcome(r),
        ),
    }
}

/// The nodes that one tool suggests, as payloads and labels to attach.
fn additions_for_tool(t: &Tool, out: &mut Vec<(Payload, Vec<NodeLabel>)>)
    ensures
        additions_view(final(out)@) == additions_view(old(out)@) + additions_of_tool(*t),
{
    let ghost start = additions_view(out@);
    match t {
        Tool::Crawler(c) => {
            let mut labels = Vec::new();
            labels.push(NodeLabel::AddedByAI);
            labels.push(NodeLabel::CrawlerSettings);
            assert(labels@ =~= seq![NodeLabel::AddedByAI, NodeLabel::CrawlerSettings]);
            out.push((Payload::CrawlerSettings(c.clone()), labels));
            let ghost mid = additions_view(out@);
            assert(mid =~= start + seq![
                (PayloadView::CrawlerSettings(c@), seq![NodeLabel::AddedByAI, NodeLabel::CrawlerSettings]),
            ]);
            match &c.keywords_to_get_accurate_results_from_web_search {
                Some(ks) => {
                    let ghost kv = ks@;
                    let mut i: usize = 0;
                    while i < ks.len()
                        invariant
                            i <= kv.len(),
                            kv == ks@,
                            additions_view(out@) == mid + search_additions(kv.take(i as int)),
                        decreases kv.len() - i,
                    {
                        let mut l = Vec::new();
                        l.push(NodeLabel::AddedByAI);
                        l.push(NodeLabel::WebSearch);
                        assert(l@ =~= seq![NodeLabel::AddedByAI, NodeLabel::WebSearch]);
                        let ghost prev = out@;
                        let item = (Payload::Text(ks[i].clone()), l);
                        let ghost iv = (item.0@, item.1@);
                        out.push(item);
                        assert(additions_view(out@) =~= additions_view(prev).push(iv));
                        assert(kv.take(i + 1) =~= kv.take(i as int).push(kv[i as int]));
                        assert(search_additions(kv.take(i + 1)) =~= search_additions(kv.take(i as int)).push(
                            (PayloadView::Text(kv[i as int]), seq![NodeLabel::AddedByAI, NodeLabel::WebSearch]),
                        ));
                        assert(additions_view(out@) =~= mid + search_additions(kv.take(i + 1)));
                        i = i + 1;
                    }
                    assert(kv.take(kv.len() as int) =~= kv);
                },
                None => {},
            }
            assert(additions_view(out@) =~= start + additions_of_tool(*t));
        },
        Tool::Classifier(c) => {
            let mut labels = Vec::new();
            labels.push(NodeLabel::AddedByAI);
            labels.push(NodeLabel::ClassifierSettings);
            assert(labels@ =~= seq![NodeLabel::AddedByAI, NodeLabel::ClassifierSettings]);
            out.push((Payload::ClassifierSettings(c.clone()), labels));
            assert(additions_view(out@) =~= start + additions_of_tool(*t));
        },
        Tool::NamedEntityExtraction(v) => {
            let mut labels = Vec::new();
            labels.push(NodeLabel::AddedByAI);
            labels.push(NodeLabel::NamedEntitiesToExtract);
            let c = v.clone();
            assert(c@ =~= v@);
            assert(labels@ =~= seq![NodeLabel::AddedByAI, NodeLabel::NamedEntitiesToExtract]);
            out.push((Payload::NamedEntitiesToExtract(c), labels));
            assert(additions_view(out@) =~= start + additions_of_tool(*t));
        },
    }
}

impl Objective {
    /// The objective node with the given text, if there is one.
    pub fn find_existing(engine: &Engine, topic: &str) -> (r: PiResult<Option<(NodeItem, NodeId)>>)
        requires
            engine.wf(),
        ensures
            r matches Ok(found) && match found {
                Some((n, id)) => objective_by_text(*engine, topic@) == Some(id) && n@ == engine.node_map()[id],
                None => objective_by_text(*engine, topic@) is None,
            },
    {
        proof {
            engine.lemma_wf();
            lemma_ids_with_label(engine.node_order(), engine.node_map(), NodeLabel::Objective);
        }
        let ids = engine.get_node_ids_with_label(&NodeLabel::Objective);
        let ghost p = objective_pred(*engine, topic@);
        let mut i: usize = 0;
        while i < ids.len()
            invariant
                engine.wf(),
                ids@ == labelled_ids(engine, NodeLabel::Objective),
                i <= ids@.len(),
                p == objective_pred(*engine, topic@),
                forall|j: int| 0 <= j < i ==> !p(#[trigger] ids@[j]),
            decreases ids@.len() - i,
        {
            let id = ids[i];
            match engine.get_node_by_id(&id) {
                Some(node) => {
                    if labels_contain(&node.labels, NodeLabel::Objective) {
                        match &node.payload {
                            Payload::Text(t) => {
                                if str_eq(t.as_str(), topic) {
                                    proof {
                                        lemma_first_where_at(ids@, p, i as int);
                                    }
                                    return Ok(Some((node.clone(), id)));
                                }
                            },
                            _ => {},
                        }
                    }
                },
                None => {},
            }
            assert(!p(ids@[i as int]));
            i = i + 1;
        }
        proof {
            lemma_first_where_none(ids@, p);
        }
        Ok(None)
    }

    /// The schema that the model answers an objective in.
    pub fn get_llm_response_schema(node: &NodeItem, engine: &Engine) -> (r: PiResult<String>)
        requires
            engine.wf(),
        ensures
            r matches Ok(s) && s@ == response_schema(*engine, node@),
    {
        let is_objective = labels_contain(&node.labels, NodeLabel::Objective) && match &node.payload {
            Payload::Text(_) => true,
            _ => false,
        };
        let settings = crate::entity::web::scraper::find_settings(engine, node.id);
        let with_keywords = !(is_objective && match settings {
            Some((_, p)) => p.only_crawl_direct_links_from_specified_links,
            None => false,
        });
        let mut s = if with_keywords {
            String::from_str(
                "type CrawlerSettings = { keywords_to_search_the_web_to_get_starting_urls: Array<string>, crawl_link_if_anchor_text_has_any_of_these_keywords: Array<string> | null, };",
            )
        } else {
            String::from_str(
                "type CrawlerSettings = { crawl_link_if_anchor_text_has_any_of_these_keywords: Array<string> | null, };",
            )
        };
        s.append("\n");
        if is_objective {
            s.append("type ClassifierSettings = { prompt_to_classify_content_as_relevant_to_objective_or_not: string, };");
        } else {
            s.append("type ClassifierSettings = { prompt_to_classify_content_as_relevant_to_objective_or_not: string | null, };");
        }
        s.append("\n");
        s.append("type EntityName = \"Person\" | \"Organization\" | \"Date\" | \"Place\";");
        s.append("\n");
        s.append("type Tool = { \"Crawler\": CrawlerSettings } | { \"Classifier\": ClassifierSettings } | { \"NamedEntityExtraction\": Array<EntityName> };");
        s.append("\n");
        s.append("type LLMResponse = { short_project_name_with_spaces: string, tools_needed_to_accomplish_objective: Array<Tool>, };");
        Ok(s)
    }

    /// Asks the model which tools the objective needs: the prompt tells the
    /// state of the project and the schema of the answer.
    pub fn request_llm(node: &NodeItem, engine: &mut Engine, api_key: Option<String>, model: &str) -> (r: PiResult<()>)
        requires
            old(engine).wf(),
        ensures
            final(engine).wf(),
            objective_requested(*old(engine), *final(engine), node@, api_key, model@, r),
    {
        if !labels_contain(&node.labels, NodeLabel::Objective) {
            return Err(PiError::GraphError(String::from_str("Node is not an Objective")));
        }
        match &node.payload {
            Payload::Text(text) => {
                let ghost e0 = *engine;
                let settings = crate::entity::web::scraper::find_settings(engine, node.id);
                let project_settings = match settings {
                    Some((_, p)) => Some(p),
                    None => None,
                };
                let state = ProjectState { project_settings, objective: text.clone() };
                let schema = match Self::get_llm_response_schema(node, engine) {
                    Ok(s) => s,
                    Err(e) => {
                        return Err(e);
                    },
                };
                let prompt = state.get_prompt(schema.as_str());
                assert(prompt@ == objective_prompt(e0, node@, text@));
                assert(node@.payload->Text_0 == *text);
                let r = Anthropic::send_prompt(engine, node.id, prompt.as_str(), api_key, model);
                r
            },
            _ => Err(PiError::GraphError(String::from_str("Expected an Objective node with Payload::Text"))),
        }
    }

    /// Applies the answer of the model: attaches the settings of each tool it
    /// names, and a web search for each crawler keyword, as suggestions of
    /// the objective, then marks the objective as processed.
    pub fn apply_llm_response(node: &NodeItem, engine: &mut Engine, response: &LLMResponse) -> (r: PiResult<()>)
        requires
            old(engine).wf(),
        ensures
            final(engine).wf(),
            tools_applied(*old(engine), *final(engine), node.id, response.tools_needed_to_accomplish_objective@, unit_outcome(r)),
    {
        let tools = &response.tools_needed_to_accomplish_objective;
        let ghost tv = tools@;
        let mut adds: Vec<(Payload, Vec<NodeLabel>)> = Vec::new();
        let mut i: usize = 0;
        assert(additions_view(adds@) =~= tool_additions(tv.take(0)));
        while i < tools.len()
            invariant
                i <= tv.len(),
                tv == tools@,
                additions_view(adds@) == tool_additions(tv.take(i as int)),
            decreases tv.len() - i,
        {
            additions_for_tool(&tools[i], &mut adds);
            assert(tv.take(i + 1).drop_last() =~= tv.take(i as int));
            i = i + 1;
        }
        assert(tv.take(tv.len() as int) =~= tv);
        let ghost e0 = *engine;
        let ra = attach_all(engine, node.id, &adds, (CommonEdgeLabels::Suggests, CommonEdgeLabels::SuggestedFor));
        let ghost mid = *engine;
        let ghost rav = unit_outcome(ra);
        match ra {
            Err(e) => {
                assert(tools_applied_via(e0, mid, *engine, rav, node.id, tv, Err(e.kind())));
                return Err(e);
            },
            Ok(()) => {},
        }
        engine.toggle_flag(&node.id, NodeFlags::is_processed());
        assert(tools_applied_via(e0, mid, *engine, rav, node.id, tv, Ok(())));
        Ok(())
    }

    /// Processes an objective: asks the model when nothing has arrived yet,
    /// applies its answer when one has, and does nothing when the request
    /// failed. A reply that could not be read is returned as the error.
    pub fn process(node: &NodeItem, engine: &mut Engine, data_from_previous_request: Option<ReplyData<LLMResponse>>, api_key: Option<String>, model: &str) -> (r: PiResult<()>)
        requires
            old(engine).wf(),
        ensures
            final(engine).wf(),
            objective_effect(*old(engine), *final(engine), node@, data_from_previous_request, api_key, model@, r),
    {
        match data_from_previous_request {
            None => Self::request_llm(node, engine, api_key, model),
            Some(ReplyData::Error(_)) => Ok(()),
            Some(ReplyData::Response(Err(e))) => Err(e),
            Some(ReplyData::Response(Ok(reply))) => Self::apply_llm_response(node, engine, &reply),
        }
    }
}

} // verus!
