use vstd::prelude::*;
use crate::engine::graph::{labelled_ids, lemma_ids_with_label, with_payload, Engine};
use crate::engine::labels::{NodeId, NodeLabel};
use crate::engine::node::{NodeItemView, Payload, PayloadView};
use crate::entity::classifier::ClassifierSettings;
use crate::entity::crawler::{CrawlerSettings, CrawlerSettingsView};
use crate::entity::named_entity::EntityName;
use crate::entity::project_settings::ProjectSettings;
use crate::error::{PiError, PiResult};

verus! {

/// Whether a tool of the project (crawler, classifier) is switched on.
#[derive(Clone, Copy, Debug, PartialEq, Eq, Structural)]
pub enum ToolEnabled {
    Yes,
    No,
}

impl Default for ToolEnabled {
    fn default() -> (r: Self)
        ensures
            r == ToolEnabled::Yes,
    {
        ToolEnabled::Yes
    }
}

/// Whether the settings in a payload switch their tool on; none for a
/// payload that holds no tool settings.
pub open spec fn enabled_in(p: PayloadView) -> Option<bool> {
    match p {
        PayloadView::CrawlerSettings(c) => Some(c.is_enabled == ToolEnabled::Yes),
        PayloadView::ClassifierSettings(c) => Some(c.is_enabled == ToolEnabled::Yes),
        _ => None,
    }
}

/// Whether the tool whose settings the payload holds is switched on; an
/// error for a payload that holds no tool settings.
pub fn is_tool_enabled_from_payload(payload: &Payload, _node_label: NodeLabel) -> (r: PiResult<bool>)
    ensures
        match enabled_in(payload@) {
            Some(b) => r == Ok::<bool, PiError>(b),
            None => r matches Err(e) && e is InternalError,
        },
{
    match payload {
        Payload::CrawlerSettings(settings) => Ok(settings.is_enabled == ToolEnabled::Yes),
        Payload::ClassifierSettings(settings) => Ok(settings.is_enabled == ToolEnabled::Yes),
        _ => Err(PiError::InternalError(String::from_str("Unsupported payload type for tool settings check"))),
    }
}

/// Whether the tool is switched on, by the settings of the first node with
/// its label; an error when there is no such node or it holds no settings.
pub fn is_tool_enabled(engine: &Engine, node_label: NodeLabel) -> (r: PiResult<bool>)
    requires
        engine.wf(),
    ensures
        ({
            let ids = labelled_ids(engine, node_label);
            if ids.len() == 0 {
                r matches Err(e) && e is InternalError
            } else {
                match enabled_in(engine.node_map()[ids[0]].payload) {
                    Some(b) => r == Ok::<bool, PiError>(b),
                    None => r matches Err(e) && e is InternalError,
                }
            }
        }),
{
    proof {
        engine.lemma_wf();
        lemma_ids_with_label(engine.node_order(), engine.node_map(), node_label);
    }
    let ids = engine.get_node_ids_with_label(&node_label);
    if ids.len() == 0 {
        return Err(PiError::InternalError(String::from_str("No settings nodes found in engine")));
    }
    assert(ids@.contains(ids@[0]));
    let node = engine.get_node_by_id(&ids[0]).unwrap();
    is_tool_enabled_from_payload(&node.payload, node_label)
}

/// True when tools with this label can be switched off.
pub open spec fn is_tool_label(l: NodeLabel) -> bool {
    l == NodeLabel::CrawlerSettings || l == NodeLabel::ClassifierSettings
}

/// The settings payload, switched off.
pub open spec fn switched_off(p: PayloadView) -> PayloadView {
    match p {
        PayloadView::CrawlerSettings(c) => PayloadView::CrawlerSettings(CrawlerSettingsView { is_enabled: ToolEnabled::No, ..c }),
        PayloadView::ClassifierSettings(c) => PayloadView::ClassifierSettings(ClassifierSettings { is_enabled: ToolEnabled::No, ..c }),
        _ => p,
    }
}

/// True when switching off the tools with these labels switches off the
/// node: it has one of the labels and holds settings of that tool that are
/// switched on.
pub open spec fn switches_off(labels: Seq<NodeLabel>, n: NodeItemView) -> bool {
    match n.payload {
        PayloadView::CrawlerSettings(c) => labels.contains(NodeLabel::CrawlerSettings) && n.labels.contains(
            NodeLabel::CrawlerSettings,
        ) && c.is_enabled == ToolEnabled::Yes,
        PayloadView::ClassifierSettings(c) => labels.contains(NodeLabel::ClassifierSettings)
            && n.labels.contains(NodeLabel::ClassifierSettings) && c.is_enabled == ToolEnabled::Yes,
        _ => false,
    }
}

/// The graph after the tools with these labels are switched off: each node
/// that they switch off holds its settings switched off (written anew);
/// nothing else changes.
pub open spec fn tools_switched_off(old: &Engine, new: &Engine, labels: Seq<NodeLabel>) -> bool {
    &&& new.node_map().dom() == old.node_map().dom()
    &&& forall|k: NodeId| #[trigger] old.node_map().contains_key(k) ==> new.node_map()[k] == if switches_off(labels, old.node_map()[k]) {
        with_payload(old.node_map()[k], switched_off(old.node_map()[k].payload), new.node_map()[k].written_at)
    } else {
        old.node_map()[k]
    }
    &&& new.node_order() == old.node_order()
    &&& new.edge_map() == old.edge_map()
    &&& new.edge_order() == old.edge_order()
    &&& new.next_node_id() == old.next_node_id()
    &&& new.open_fetch_requests() == old.open_fetch_requests()
    &&& new.project_id() == old.project_id()
    &&& new.outbox() == old.outbox()
}

/// Switches off the tools with the given labels, in turn. A label that is not
/// that of a tool is an error, and the labels after it are left alone.
pub fn disable_tools_by_labels(engine: &mut Engine, node_labels: Vec<NodeLabel>) -> (r: PiResult<()>)
    requires
        old(engine).wf(),
    ensures
        final(engine).wf(),
        match r {
            Ok(_) => (forall|i: int| 0 <= i < node_labels@.len() ==> is_tool_label(#[trigger] node_labels@[i]))
                && tools_switched_off(old(engine), final(engine), node_labels@),
            Err(e) => e is InternalError && exists|i: int| {
                &&& 0 <= i < node_labels@.len()
                &&& !is_tool_label(#[trigger] node_labels@[i])
                &&& forall|j: int| 0 <= j < i ==> is_tool_label(node_labels@[j])
                &&& tools_switched_off(old(engine), final(engine), node_labels@.subrange(0, i))
            },
        },
{
    proof {
        old(engine).lemma_wf();
    }
    let ghost e0 = *engine;
    let mut i: usize = 0;
    assert(node_labels@.subrange(0, 0) =~= Seq::<NodeLabel>::empty());
    while i < node_labels.len()
        invariant
            engine.wf(),
            e0 == *old(engine),
            e0.wf(),
            i <= node_labels@.len(),
            forall|j: int| 0 <= j < i ==> is_tool_label(#[trigger] node_labels@[j]),
            tools_switched_off(&e0, engine, node_labels@.subrange(0, i as int)),
        decreases node_labels@.len() - i,
    {
        let label = node_labels[i];
        if label != NodeLabel::CrawlerSettings && label != NodeLabel::ClassifierSettings {
            return Err(PiError::InternalError(String::from_str("Tool disabling not supported for node label")));
        }
        proof {
            engine.lemma_wf();
            lemma_ids_with_label(engine.node_order(), engine.node_map(), label);
        }
        let ids = engine.get_node_ids_with_label(&label);
        let ghost done = node_labels@.subrange(0, i as int);
        let ghost next = node_labels@.subrange(0, i as int + 1);
        assert(next =~= done.push(label));
        let mut j: usize = 0;
        while j < ids.len()
            invariant
                engine.wf(),
                e0.wf(),
                j <= ids@.len(),
                ids@.no_duplicates(),
                next == done.push(label),
                is_tool_label(label),
                forall|x: NodeId| #[trigger] ids@.contains(x) ==> e0.node_map().contains_key(x) && e0.node_map()[x].labels.contains(label),
                forall|x: NodeId| e0.node_map().contains_key(x) && e0.node_map()[x].labels.contains(label) ==> #[trigger] ids@.contains(x),
                engine.node_map().dom() == e0.node_map().dom(),
                forall|k: NodeId| #[trigger] e0.node_map().contains_key(k) ==> engine.node_map()[k] == if switches_off(done, e0.node_map()[k])
                    || (switches_off(seq![label], e0.node_map()[k]) && exists|q: int| 0 <= q < j && ids@[q] == k) {
                    with_payload(e0.node_map()[k], switched_off(e0.node_map()[k].payload), engine.node_map()[k].written_at)
                } else {
                    e0.node_map()[k]
                },
                engine.node_order() == e0.node_order(),
                engine.edge_map() == e0.edge_map(),
                engine.edge_order() == e0.edge_order(),
                engine.next_node_id() == e0.next_node_id(),
                engine.open_fetch_requests() == e0.open_fetch_requests(),
                engine.project_id() == e0.project_id(),
                engine.outbox() == e0.outbox(),
            decreases ids@.len() - j,
        {
            let id = ids[j];
            assert(ids@.contains(id));
            let ghost before = *engine;
            let node = engine.get_node_by_id(&id).unwrap();
            let new_payload = match &node.payload {
                Payload::CrawlerSettings(settings) => {
                    if label == NodeLabel::CrawlerSettings && settings.is_enabled == ToolEnabled::Yes {
                        let mut s = settings.clone();
                        s.is_enabled = ToolEnabled::No;
                        Some(Payload::CrawlerSettings(s))
                    } else {
                        None
                    }
                },
                Payload::ClassifierSettings(settings) => {
                    if label == NodeLabel::ClassifierSettings && settings.is_enabled == ToolEnabled::Yes {
                        let mut s = settings.clone();
                        s.is_enabled = ToolEnabled::No;
                        Some(Payload::ClassifierSettings(s))
                    } else {
                        None
                    }
                },
                _ => None,
            };
            proof {
                assert(!exists|q: int| 0 <= q < j && ids@[q] == id) by {
                    if exists|q: int| 0 <= q < j && ids@[q] == id {
                        let q = choose|q: int| 0 <= q < j && ids@[q] == id;
                        assert(ids@[q] == ids@[j as int]);
                    }
                }
                assert(seq![label].contains(label)) by {
                    assert(seq![label][0] == label);
                }
                assert forall|x: NodeLabel| #[trigger] seq![label].contains(x) implies x == label by {
                    let q = choose|q: int| 0 <= q < 1 && seq![label][q] == x;
                }
            }
            match new_payload {
                Some(p) => {
                    assert(!switches_off(done, e0.node_map()[id]));
                    assert(before.node_map()[id] == e0.node_map()[id]);
                    assert(switches_off(seq![label], e0.node_map()[id]));
                    assert(p@ == switched_off(e0.node_map()[id].payload));
                    engine.update_node(&id, p);
                    proof {
                        assert forall|k: NodeId| #[trigger] e0.node_map().contains_key(k) implies engine.node_map()[k] == if switches_off(done, e0.node_map()[k])
                            || (switches_off(seq![label], e0.node_map()[k]) && exists|q: int| 0 <= q < j + 1 && ids@[q] == k) {
                            with_payload(e0.node_map()[k], switched_off(e0.node_map()[k].payload), engine.node_map()[k].written_at)
                        } else {
                            e0.node_map()[k]
                        } by {
                            if k == id {
                                assert(ids@[j as int] == k);
                            } else {
                                assert(engine.node_map()[k] == before.node_map()[k]);
                                if exists|q: int| 0 <= q < j + 1 && ids@[q] == k {
                                    let q = choose|q: int| 0 <= q < j + 1 && ids@[q] == k;
                                    assert(q != j);
                                }
                            }
                        }
                    }
                },
                None => {
                    proof {
                        assert(switches_off(seq![label], e0.node_map()[id]) ==> switches_off(done, e0.node_map()[id]));
                        assert forall|k: NodeId| #[trigger] e0.node_map().contains_key(k) implies engine.node_map()[k] == if switches_off(done, e0.node_map()[k])
                            || (switches_off(seq![label], e0.node_map()[k]) && exists|q: int| 0 <= q < j + 1 && ids@[q] == k) {
                            with_payload(e0.node_map()[k], switched_off(e0.node_map()[k].payload), engine.node_map()[k].written_at)
                        } else {
                            e0.node_map()[k]
                        } by {
                            if k != id {
                                if exists|q: int| 0 <= q < j + 1 && ids@[q] == k {
                                    let q = choose|q: int| 0 <= q < j + 1 && ids@[q] == k;
                                    assert(q != j);
                                }
                            }
                        }
                    }
                },
            }
            j = j + 1;
        }
        proof {
            assert forall|x: NodeLabel| #[trigger] next.contains(x) <==> (done.contains(x) || x == label) by {
                if next.contains(x) {
                    let q = choose|q: int| 0 <= q < next.len() && next[q] == x;
                    if q < done.len() {
                        assert(done[q] == x);
                    }
                }
                if done.contains(x) {
                    let q = choose|q: int| 0 <= q < done.len() && done[q] == x;
                    assert(next[q] == x);
                }
                if x == label {
                    assert(next[done.len() as int] == x);
                }
            }
            assert forall|x: NodeLabel| #[trigger] seq![label].contains(x) <==> x == label by {
                if seq![label].contains(x) {
                    let q = choose|q: int| 0 <= q < 1 && seq![label][q] == x;
                }
                if x == label {
                    assert(seq![label][0] == x);
                }
            }
            assert forall|k: NodeId| #[trigger] e0.node_map().contains_key(k) implies engine.node_map()[k] == if switches_off(next, e0.node_map()[k]) {
                with_payload(e0.node_map()[k], switched_off(e0.node_map()[k].payload), engine.node_map()[k].written_at)
            } else {
                e0.node_map()[k]
            } by {
                if switches_off(seq![label], e0.node_map()[k]) {
                    assert(ids@.contains(k));
                    let q = choose|q: int| 0 <= q < ids@.len() && ids@[q] == k;
                }
            }
        }
        i = i + 1;
    }
    assert(node_labels@.subrange(0, node_labels@.len() as int) =~= node_labels@);
    Ok(())
}

/// Switches off the tool with the given label. A label that is not that of
/// a tool is an error, and nothing changes.
pub fn disable_tool_by_label(engine: &mut Engine, node_label: NodeLabel) -> (r: PiResult<()>)
    requires
        old(engine).wf(),
    ensures
        final(engine).wf(),
        match r {
            Ok(_) => is_tool_label(node_label) && tools_switched_off(old(engine), final(engine), seq![node_label]),
            Err(e) => e is InternalError && !is_tool_label(node_label) && tools_switched_off(
                old(engine),
                final(engine),
                Seq::empty(),
            ),
        },
{
    let mut labels = Vec::new();
    labels.push(node_label);
    assert(labels@ =~= seq![node_label]);
    let r = disable_tools_by_labels(engine, labels);
    proof {
        if r is Err {
            assert(seq![node_label].subrange(0, 0) =~= Seq::<NodeLabel>::empty());
        } else {
            assert(is_tool_label(seq![node_label][0]));
        }
    }
    r
}

/// A tool that the project can use to reach its objective.
#[derive(Debug)]
pub enum Tool {
    Crawler(CrawlerSettings),
    Classifier(ClassifierSettings),
    NamedEntityExtraction(Vec<EntityName>),
}

/// What the LLM answers to an objective: a short name for the project and
/// the tools it needs.
#[derive(Debug)]
pub struct LLMResponse {
    pub short_project_name_with_spaces: String,
    pub tools_needed_to_accomplish_objective: Vec<Tool>,
}

/// The state of a project as the LLM is told it.
#[derive(Debug)]
pub struct ProjectState {
    pub project_settings: Option<ProjectSettings>,
    pub objective: String,
}

} // verus!

verus! {

use crate::services::anthropic::{json_quote, json_quoted};

/// A boolean as JSON writes it.
pub open spec fn json_bool(b: bool) -> Seq<char> {
    if b {
        "true"@
    } else {
        "false"@
    }
}

/// Project settings as a JSON object, fields in the order of declaration.
pub open spec fn settings_json(p: ProjectSettings) -> Seq<char> {
    "{\"only_extract_data_from_specified_links\":"@ + json_bool(p.only_extract_data_from_specified_links)
        + ",\"only_crawl_direct_links_from_specified_links\":"@ + json_bool(
        p.only_crawl_direct_links_from_specified_links,
    ) + ",\"only_crawl_within_domains_of_specified_links\":"@ + json_bool(
        p.only_crawl_within_domains_of_specified_links,
    ) + "}"@
}

/// The state of a project as a JSON object: the settings, when there are
/// any, then the objective.
pub open spec fn state_json(settings: Option<ProjectSettings>, objective: Seq<char>) -> Seq<char> {
    match settings {
        Some(p) => "{\"project_settings\":"@ + settings_json(p) + ",\"objective\":"@ + json_quoted(objective) + "}"@,
        None => "{\"objective\":"@ + json_quoted(objective) + "}"@,
    }
}

/// The prompt that tells the model the state of the project and asks for an
/// `LLMResponse` in the given schema.
pub open spec fn state_prompt(settings: Option<ProjectSettings>, objective: Seq<char>, schema: Seq<char>) -> Seq<char> {
    "I am a software bot and here is my current state:\n```json\n"@ + state_json(settings, objective)
        + "\n```\n\nUsing the following schema, please respond in JSON with `LLMResponse` to achieve the objective.\n```typescript\n"@
        + schema + "\n```\n"@
}

fn append_json_bool(s: &mut String, b: bool)
    ensures
        final(s)@ == old(s)@ + json_bool(b),
{
    if b {
        s.append("true");
    } else {
        s.append("false");
    }
}

impl ProjectState {
    /// The prompt that tells the model the state of the project and asks for
    /// an answer in the given schema.
    pub fn get_prompt(&self, llm_response_schema: &str) -> (r: String)
        ensures
            r@ == state_prompt(self.project_settings, self.objective@, llm_response_schema@),
    {
        let mut s = String::from_str("I am a software bot and here is my current state:\n```json\n");
        match &self.project_settings {
            Some(p) => {
                s.append("{\"project_settings\":");
                s.append("{\"only_extract_data_from_specified_links\":");
                append_json_bool(&mut s, p.only_extract_data_from_specified_links);
                s.append(",\"only_crawl_direct_links_from_specified_links\":");
                append_json_bool(&mut s, p.only_crawl_direct_links_from_specified_links);
                s.append(",\"only_crawl_within_domains_of_specified_links\":");
                append_json_bool(&mut s, p.only_crawl_within_domains_of_specified_links);
                s.append("}");
                s.append(",\"objective\":");
            },
            None => {
                s.append("{\"objective\":");
            },
        }
        let quoted = json_quote(self.objective.as_str());
        s.append(quoted.as_str());
        s.append("}");
        s.append("\n```\n\nUsing the following schema, please respond in JSON with `LLMResponse` to achieve the objective.\n```typescript\n");
        s.append(llm_response_schema);
        s.append("\n```\n");
        proof {
            let head = "I am a software bot and here is my current state:\n```json\n"@;
            let tail = "\n```\n\nUsing the following schema, please respond in JSON with `LLMResponse` to achieve the objective.\n```typescript\n"@
                + llm_response_schema@ + "\n```\n"@;
            assert(s@ =~= head + state_json(self.project_settings, self.objective@) + tail);
        }
        s
    }
}

} // verus!
