use vstd::prelude::*;
use crate::engine::api::{api_edges_of, api_node_edges, lemma_filter_push, sorted_listing, labelled, APINodeEdges, ClassifiedItem, EntityGroup};
use crate::engine::graph::Engine;
use crate::engine::labels::{CommonEdgeLabels, EdgeLabel, NodeId, NodeLabel};
use crate::engine::node::{labels_contain, NodeEdgesView, Payload, PayloadView};
use crate::entity::classifier::Classification;
use crate::entity::named_entity::{EntityName, ExtractedEntity};
use crate::entity::web::domain::{domain_of_node, Domain, FindDomainOf};
use crate::text::{concat3, str_eq, string_views};

verus! {

/// The first value that `f` gives for an element of `s`, from the front.
pub open spec fn first_some<A, B>(s: Seq<A>, f: spec_fn(A) -> Option<B>) -> Option<B>
    decreases s.len(),
{
    if s.len() == 0 {
        None
    } else if f(s[0]) is Some {
        f(s[0])
    } else {
        first_some(s.subrange(1, s.len() as int), f)
    }
}

/// Elements for which `f` gives nothing can be skipped.
pub proof fn lemma_first_some_from<A, B>(s: Seq<A>, f: spec_fn(A) -> Option<B>, i: int)
    requires
        0 <= i <= s.len(),
        forall|j: int| 0 <= j < i ==> f(#[trigger] s[j]) is None,
    ensures
        first_some(s, f) == first_some(s.subrange(i, s.len() as int), f),
    decreases i,
{
    if i > 0 {
        let t = s.subrange(1, s.len() as int);
        assert(f(s[0]) is None);
        assert forall|j: int| 0 <= j < i - 1 implies f(#[trigger] t[j]) is None by {
            assert(t[j] == s[j + 1]);
        }
        lemma_first_some_from(t, f, i - 1);
        assert(t.subrange(i - 1, t.len() as int) =~= s.subrange(i, s.len() as int));
    } else {
        assert(s.subrange(0, s.len() as int) =~= s);
    }
}

/// The edge list of a node, empty when it has none.
pub open spec fn edges_of(e: &Engine, id: NodeId) -> Seq<(NodeId, EdgeLabel)> {
    if e.edge_map().contains_key(id) {
        e.edge_map()[id].edges
    } else {
        Seq::empty()
    }
}

/// The entities that an edge leads to: those of an extracted-entities node
/// that the page suggests.
pub open spec fn entities_at(e: &Engine) -> spec_fn((NodeId, EdgeLabel)) -> Option<Seq<ExtractedEntity>> {
    |edge: (NodeId, EdgeLabel)| if edge.1 == CommonEdgeLabels::Suggests && e.node_map().contains_key(edge.0)
        && e.node_map()[edge.0].labels.contains(NodeLabel::ExtractedNamedEntities) {
        match e.node_map()[edge.0].payload {
            PayloadView::ExtractedNamedEntities(v) => Some(v),
            _ => None,
        }
    } else {
        None
    }
}

/// The entities extracted from a web page: those of the first edge that
/// leads to any.
pub open spec fn page_entities(e: &Engine, page: NodeId) -> Seq<ExtractedEntity> {
    match first_some(edges_of(e, page), entities_at(e)) {
        Some(v) => v,
        None => Seq::empty(),
    }
}

/// The entities of the pages, page after page.
pub open spec fn entities_of_pages(e: &Engine, pages: Seq<NodeId>) -> Seq<ExtractedEntity>
    decreases pages.len(),
{
    if pages.len() == 0 {
        Seq::empty()
    } else {
        entities_of_pages(e, pages.drop_last()) + page_entities(e, pages.last())
    }
}

/// The name of a kind of entity.
pub open spec fn entity_name_name(n: EntityName) -> Seq<char> {
    match n {
        EntityName::Person => "Person"@,
        EntityName::Organization => "Organization"@,
        EntityName::Date => "Date"@,
        EntityName::Place => "Place"@,
    }
}

impl EntityName {
    /// The name of this kind of entity.
    pub fn name(&self) -> (r: &'static str)
        ensures
            r@ == entity_name_name(*self),
    {
        match self {
            EntityName::Person => "Person",
            EntityName::Organization => "Organization",
            EntityName::Date => "Date",
            EntityName::Place => "Place",
        }
    }
}

/// Every kind of entity, in the order of declaration.
pub open spec fn entity_kinds() -> Seq<EntityName> {
    seq![EntityName::Person, EntityName::Organization, EntityName::Date, EntityName::Place]
}

/// The texts found for one kind of entity, each once, in the order they
/// first appear.
pub open spec fn texts_for(ents: Seq<ExtractedEntity>, kind: EntityName) -> Seq<Seq<char>>
    decreases ents.len(),
{
    if ents.len() == 0 {
        Seq::empty()
    } else {
        let prev = texts_for(ents.drop_last(), kind);
        let x = ents.last();
        if x.entity_name == kind && !prev.contains(x.matching_text@) {
            prev.push(x.matching_text@)
        } else {
            prev
        }
    }
}

/// The test that some entity of this kind was found.
pub open spec fn has_texts(ents: Seq<ExtractedEntity>) -> spec_fn(EntityName) -> bool {
    |k: EntityName| texts_for(ents, k).len() > 0
}

/// True when the groups list, for each kind of entity that was found and in
/// the order of the kinds, the distinct texts found for it.
pub open spec fn entity_groups_of(gs: Seq<EntityGroup>, ents: Seq<ExtractedEntity>) -> bool {
    let kinds = entity_kinds().filter(has_texts(ents));
    &&& gs.len() == kinds.len()
    &&& forall|i: int| 0 <= i < kinds.len() ==> {
        &&& (#[trigger] gs[i]).entity_name@ == entity_name_name(kinds[i])
        &&& string_views(gs[i].extracted_text@) == texts_for(ents, kinds[i])
    }
}

/// True when the views of the strings hold the text.
pub fn strings_contain(v: &Vec<String>, t: &str) -> (r: bool)
    ensures
        r == string_views(v@).contains(t@),
{
    let mut i: usize = 0;
    while i < v.len()
        invariant
            i <= v@.len(),
            forall|j: int| 0 <= j < i ==> v@[j]@ != t@,
        decreases v@.len() - i,
    {
        if str_eq(v[i].as_str(), t) {
            assert(string_views(v@)[i as int] == t@);
            return true;
        }
        i = i + 1;
    }
    proof {
        if string_views(v@).contains(t@) {
            let j = choose|j: int| 0 <= j < string_views(v@).len() && string_views(v@)[j] == t@;
            assert(v@[j]@ == t@);
        }
    }
    false
}

/// The distinct texts found for one kind of entity, in the order they first
/// appear.
pub fn collect_texts(ents: &Vec<ExtractedEntity>, kind: EntityName) -> (r: Vec<String>)
    ensures
        string_views(r@) == texts_for(ents@, kind),
{
    let mut r: Vec<String> = Vec::new();
    let mut i: usize = 0;
    while i < ents.len()
        invariant
            i <= ents@.len(),
            string_views(r@) == texts_for(ents@.subrange(0, i as int), kind),
        decreases ents@.len() - i,
    {
        let x = &ents[i];
        proof {
            assert(ents@.subrange(0, i as int + 1).drop_last() =~= ents@.subrange(0, i as int));
        }
        if x.entity_name == kind && !strings_contain(&r, x.matching_text.as_str()) {
            let ghost before = r@;
            r.push(x.matching_text.clone());
            assert(string_views(r@) =~= string_views(before).push(x.matching_text@));
        }
        i = i + 1;
    }
    assert(ents@.subrange(0, ents@.len() as int) =~= ents@);
    r
}

/// The groups of entity texts, one for each kind of entity that was found.
pub fn group_entities(ents: &Vec<ExtractedEntity>) -> (r: Vec<EntityGroup>)
    ensures
        entity_groups_of(r@, ents@),
{
    let mut kinds: Vec<EntityName> = Vec::new();
    kinds.push(EntityName::Person);
    kinds.push(EntityName::Organization);
    kinds.push(EntityName::Date);
    kinds.push(EntityName::Place);
    assert(kinds@ =~= entity_kinds());
    let ghost p = has_texts(ents@);
    let mut r: Vec<EntityGroup> = Vec::new();
    let mut i: usize = 0;
    while i < kinds.len()
        invariant
            i <= kinds@.len(),
            kinds@ == entity_kinds(),
            p == has_texts(ents@),
            r@.len() == kinds@.subrange(0, i as int).filter(p).len(),
            forall|j: int| 0 <= j < r@.len() ==> {
                &&& (#[trigger] r@[j]).entity_name@ == entity_name_name(kinds@.subrange(0, i as int).filter(p)[j])
                &&& string_views(r@[j].extracted_text@) == texts_for(ents@, kinds@.subrange(0, i as int).filter(p)[j])
            },
        decreases kinds@.len() - i,
    {
        let kind = kinds[i];
        let texts = collect_texts(ents, kind);
        let ghost f0 = kinds@.subrange(0, i as int).filter(p);
        proof {
            assert(kinds@.subrange(0, i as int + 1) =~= kinds@.subrange(0, i as int).push(kind));
            lemma_filter_push(kinds@.subrange(0, i as int), kind, p);
        }
        if texts.len() > 0 {
            let ghost before = r@;
            r.push(EntityGroup { entity_name: String::from_str(kind.name()), extracted_text: texts });
            proof {
                assert forall|j: int| 0 <= j < r@.len() implies {
                    &&& (#[trigger] r@[j]).entity_name@ == entity_name_name(kinds@.subrange(0, i as int + 1).filter(p)[j])
                    &&& string_views(r@[j].extracted_text@) == texts_for(ents@, kinds@.subrange(0, i as int + 1).filter(p)[j])
                } by {
                    if j < before.len() {
                        assert(r@[j] == before[j]);
                        assert(kinds@.subrange(0, i as int + 1).filter(p)[j] == f0[j]);
                    }
                }
            }
        }
        i = i + 1;
    }
    assert(kinds@.subrange(0, 4) =~= kinds@);
    r
}

/// The entities that the first matching edge of a page leads to.
pub fn find_page_entities(engine: &Engine, page: NodeId) -> (r: Vec<ExtractedEntity>)
    requires
        engine.wf(),
    ensures
        r@ == page_entities(engine, page),
{
    let ghost f = entities_at(engine);
    match engine.get_connected_nodes(&page) {
        None => {
            proof {
                assert(edges_of(engine, page) =~= Seq::<(NodeId, EdgeLabel)>::empty());
            }
            Vec::new()
        },
        Some(edges) => {
            let ghost s = edges.edges@;
            let mut i: usize = 0;
            while i < edges.edges.len()
                invariant
                    engine.wf(),
                    s == edges.edges@,
                    s == edges_of(engine, page),
                    f == entities_at(engine),
                    i <= s.len(),
                    forall|j: int| 0 <= j < i ==> f(#[trigger] s[j]) is None,
                decreases s.len() - i,
            {
                let (id, label) = edges.edges[i];
                if label == CommonEdgeLabels::Suggests {
                    match engine.get_node_by_id(&id) {
                        Some(node) => {
                            if labels_contain(&node.labels, NodeLabel::ExtractedNamedEntities) {
                                match &node.payload {
                                    Payload::ExtractedNamedEntities(v) => {
                                        let c = v.clone();
                                        proof {
                                            assert(c@ =~= v@);
                                            lemma_first_some_from(s, f, i as int);
                                        }
                                        return c;
                                    },
                                    _ => {},
                                }
                            }
                        },
                        None => {},
                    }
                }
                assert(f(s[i as int]) is None);
                i = i + 1;
            }
            proof {
                lemma_first_some_from(s, f, s.len() as int);
            }
            Vec::new()
        },
    }
}

/// Appends clones of the entities.
pub fn append_entities(to: &mut Vec<ExtractedEntity>, from: &Vec<ExtractedEntity>)
    ensures
        final(to)@ == old(to)@ + from@,
{
    let mut i: usize = 0;
    while i < from.len()
        invariant
            i <= from@.len(),
            to@ == old(to)@ + from@.subrange(0, i as int),
        decreases from@.len() - i,
    {
        to.push(from[i].clone());
        i = i + 1;
        assert(to@ =~= old(to)@ + from@.subrange(0, i as int));
    }
    assert(from@.subrange(0, from@.len() as int) =~= from@);
}

/// The entities extracted from the pages, page after page.
pub fn entities_from_pages(engine: &Engine, pages: &Vec<NodeId>) -> (r: Vec<ExtractedEntity>)
    requires
        engine.wf(),
    ensures
        r@ == entities_of_pages(engine, pages@),
{
    let mut r: Vec<ExtractedEntity> = Vec::new();
    let mut i: usize = 0;
    while i < pages.len()
        invariant
            engine.wf(),
            i <= pages@.len(),
            r@ == entities_of_pages(engine, pages@.subrange(0, i as int)),
        decreases pages@.len() - i,
    {
        let found = find_page_entities(engine, pages[i]);
        append_entities(&mut r, &found);
        assert(pages@.subrange(0, i as int + 1).drop_last() =~= pages@.subrange(0, i as int));
        i = i + 1;
    }
    assert(pages@.subrange(0, pages@.len() as int) =~= pages@);
    r
}

/// The URL that an edge of a web page leads to: that of a link the page is
/// the parent of, on the domain the link belongs to.
pub open spec fn url_at(e: &Engine) -> spec_fn((NodeId, EdgeLabel)) -> Option<Seq<char>> {
    |edge: (NodeId, EdgeLabel)| if edge.1 == CommonEdgeLabels::ParentOf && e.node_map().contains_key(edge.0)
        && e.node_map()[edge.0].labels.contains(NodeLabel::Link) {
        match e.node_map()[edge.0].payload {
            PayloadView::Link(l) => match domain_of_node(e, edge.0) {
                Ok(Some(d)) => match e.node_map()[d].payload {
                    PayloadView::Text(name) => Some("https://"@ + name@ + l.spec_full_link()),
                    _ => None,
                },
                _ => None,
            },
            _ => None,
        }
    } else {
        None
    }
}

/// The classification that an edge of a web page leads to.
pub open spec fn classification_at(e: &Engine) -> spec_fn((NodeId, EdgeLabel)) -> Option<Classification> {
    |edge: (NodeId, EdgeLabel)| if edge.1 == CommonEdgeLabels::Classifies && e.node_map().contains_key(edge.0)
        && e.node_map()[edge.0].labels.contains(NodeLabel::Classification) {
        match e.node_map()[edge.0].payload {
            PayloadView::Classification(c) => Some(c),
            _ => None,
        }
    } else {
        None
    }
}

/// The URL and the classification of each page that has both, page after
/// page.
pub open spec fn classified_pages(e: &Engine, pages: Seq<NodeId>) -> Seq<(Seq<char>, Classification)>
    decreases pages.len(),
{
    if pages.len() == 0 {
        Seq::empty()
    } else {
        let prev = classified_pages(e, pages.drop_last());
        let p = pages.last();
        match (first_some(edges_of(e, p), url_at(e)), first_some(edges_of(e, p), classification_at(e))) {
            (Some(u), Some(c)) => prev.push((u, c)),
            _ => prev,
        }
    }
}

/// True when `a` is the classified item of a URL and a classification.
pub open spec fn classified_item_of(a: ClassifiedItem, u: Seq<char>, c: Classification) -> bool {
    &&& a.url@ == u
    &&& a.is_relevant == c.is_relevant
    &&& a.reason == c.reason
    &&& a.insight == c.insight_if_classified_as_relevant
}

/// The URL of the first link that a page is the parent of.
pub fn find_page_url(engine: &Engine, page: NodeId) -> (r: Option<String>)
    requires
        engine.wf(),
    ensures
        match r {
            Some(u) => first_some(edges_of(engine, page), url_at(engine)) == Some(u@),
            None => first_some(edges_of(engine, page), url_at(engine)) is None,
        },
{
    let ghost f = url_at(engine);
    match engine.get_connected_nodes(&page) {
        None => {
            proof {
                assert(edges_of(engine, page) =~= Seq::<(NodeId, EdgeLabel)>::empty());
            }
            None
        },
        Some(edges) => {
            let ghost s = edges.edges@;
            let mut i: usize = 0;
            while i < edges.edges.len()
                invariant
                    engine.wf(),
                    s == edges.edges@,
                    s == edges_of(engine, page),
                    f == url_at(engine),
                    i <= s.len(),
                    forall|j: int| 0 <= j < i ==> f(#[trigger] s[j]) is None,
                decreases s.len() - i,
            {
                let (id, label) = edges.edges[i];
                if label == CommonEdgeLabels::ParentOf {
                    match engine.get_node_by_id(&id) {
                        Some(node) => {
                            if labels_contain(&node.labels, NodeLabel::Link) {
                                match &node.payload {
                                    Payload::Link(link) => {
                                        match Domain::find_existing(engine, FindDomainOf::Node(id)) {
                                            Ok(Some(domain_node)) => {
                                                match Domain::get_domain_name(domain_node) {
                                                    Ok(name) => {
                                                        let full = link.get_full_link();
                                                        let url = concat3("https://", name.as_str(), full.as_str());
                                                        proof {
                                                            lemma_first_some_from(s, f, i as int);
                                                        }
                                                        return Some(url);
                                                    },
                                                    Err(_) => {},
                                                }
                                            },
                                            _ => {},
                                        }
                                    },
                                    _ => {},
                                }
                            }
                        },
                        None => {},
                    }
                }
                assert(f(s[i as int]) is None);
                i = i + 1;
            }
            proof {
                lemma_first_some_from(s, f, s.len() as int);
            }
            None
        },
    }
}

/// The classification of a page: that of the first classification node it
/// leads to.
pub fn find_page_classification(engine: &Engine, page: NodeId) -> (r: Option<Classification>)
    requires
        engine.wf(),
    ensures
        r == first_some(edges_of(engine, page), classification_at(engine)),
{
    let ghost f = classification_at(engine);
    match engine.get_connected_nodes(&page) {
        None => {
            proof {
                assert(edges_of(engine, page) =~= Seq::<(NodeId, EdgeLabel)>::empty());
            }
            None
        },
        Some(edges) => {
            let ghost s = edges.edges@;
            let mut i: usize = 0;
            while i < edges.edges.len()
                invariant
                    engine.wf(),
                    s == edges.edges@,
                    s == edges_of(engine, page),
                    f == classification_at(engine),
                    i <= s.len(),
                    forall|j: int| 0 <= j < i ==> f(#[trigger] s[j]) is None,
                decreases s.len() - i,
            {
                let (id, label) = edges.edges[i];
                if label == CommonEdgeLabels::Classifies {
                    match engine.get_node_by_id(&id) {
                        Some(node) => {
                            if labels_contain(&node.labels, NodeLabel::Classification) {
                                match &node.payload {
                                    Payload::Classification(c) => {
                                        proof {
                                            lemma_first_some_from(s, f, i as int);
                                        }
                                        return Some(c.clone());
                                    },
                                    _ => {},
                                }
                            }
                        },
                        None => {},
                    }
                }
                assert(f(s[i as int]) is None);
                i = i + 1;
            }
            proof {
                lemma_first_some_from(s, f, s.len() as int);
            }
            None
        },
    }
}

/// True when the items are those of the classified pages, in order.
pub open spec fn classified_items_of(a: Seq<ClassifiedItem>, cs: Seq<(Seq<char>, Classification)>) -> bool {
    &&& a.len() == cs.len()
    &&& forall|i: int| 0 <= i < cs.len() ==> classified_item_of(#[trigger] a[i], cs[i].0, cs[i].1)
}

/// The URL and classification of each page that has both, page after page.
pub fn classify_pages(engine: &Engine, pages: &Vec<NodeId>) -> (r: Vec<ClassifiedItem>)
    requires
        engine.wf(),
    ensures
        classified_items_of(r@, classified_pages(engine, pages@)),
{
    let mut r: Vec<ClassifiedItem> = Vec::new();
    let mut i: usize = 0;
    while i < pages.len()
        invariant
            engine.wf(),
            i <= pages@.len(),
            classified_items_of(r@, classified_pages(engine, pages@.subrange(0, i as int))),
        decreases pages@.len() - i,
    {
        let page = pages[i];
        assert(pages@.subrange(0, i as int + 1).drop_last() =~= pages@.subrange(0, i as int));
        assert(pages@.subrange(0, i as int + 1).last() == page);
        let url = find_page_url(engine, page);
        let classification = find_page_classification(engine, page);
        match (url, classification) {
            (Some(u), Some(c)) => {
                let ghost before = r@;
                r.push(ClassifiedItem {
                    url: u,
                    is_relevant: c.is_relevant,
                    reason: c.reason,
                    insight: c.insight_if_classified_as_relevant,
                });
                proof {
                    let cs = classified_pages(engine, pages@.subrange(0, i as int + 1));
                    assert forall|j: int| 0 <= j < cs.len() implies classified_item_of(#[trigger] r@[j], cs[j].0, cs[j].1) by {
                        if j < before.len() {
                            assert(r@[j] == before[j]);
                        }
                    }
                }
            },
            _ => {},
        }
        i = i + 1;
    }
    assert(pages@.subrange(0, pages@.len() as int) =~= pages@);
    r
}

/// True when `a` lists the API forms of the edge lists of the nodes `ids`,
/// in the same order.
pub open spec fn api_edge_lists_of(a: Seq<(NodeId, APINodeEdges)>, e: &Engine, ids: Seq<NodeId>) -> bool {
    &&& a.len() == ids.len()
    &&& forall|i: int| 0 <= i < ids.len() ==> {
        &&& (#[trigger] a[i]).0 == ids[i]
        &&& api_edges_of(a[i].1, e.edge_map()[ids[i]])
    }
}

/// The test that an ID names an edge list written after `since`.
pub open spec fn edges_written_after(e: &Engine, since: i64) -> spec_fn(NodeId) -> bool {
    |x: NodeId| e.edge_map().contains_key(x) && e.edge_map()[x].written_at > since
}

/// The edge lists written after `since`, in the order their nodes got their
/// first edge.
pub fn edge_lists_written_after(engine: &Engine, since: i64) -> (r: Vec<(NodeId, APINodeEdges)>)
    requires
        engine.wf(),
    ensures
        api_edge_lists_of(r@, engine, engine.edge_order().filter(edges_written_after(engine, since))),
{
    proof {
        engine.lemma_wf();
    }
    let ghost p = edges_written_after(engine, since);
    let ghost order = engine.edge_order();
    let n = engine.edge_owner_count();
    let mut r: Vec<(NodeId, APINodeEdges)> = Vec::new();
    let mut i: usize = 0;
    while i < n
        invariant
            engine.wf(),
            order == engine.edge_order(),
            n == order.len(),
            i <= n,
            p == edges_written_after(engine, since),
            forall|k: NodeId| engine.edge_map().contains_key(k) <==> #[trigger] order.contains(k),
            api_edge_lists_of(r@, engine, order.subrange(0, i as int).filter(p)),
        decreases n - i,
    {
        let id = engine.edge_owner_at(i);
        assert(order.contains(id));
        let ghost r0 = r@;
        let ghost f0 = order.subrange(0, i as int).filter(p);
        proof {
            assert(order.subrange(0, i as int + 1) =~= order.subrange(0, i as int).push(id));
            lemma_filter_push(order.subrange(0, i as int), id, p);
        }
        let edges = engine.get_connected_nodes(&id).unwrap();
        if edges.written_at > since {
            let a = api_node_edges(edges);
            r.push((id, a));
            proof {
                let f = order.subrange(0, i as int + 1).filter(p);
                assert forall|j: int| 0 <= j < f.len() implies {
                    &&& (#[trigger] r@[j]).0 == f[j]
                    &&& api_edges_of(r@[j].1, engine.edge_map()[f[j]])
                } by {
                    if j < f0.len() {
                        assert(r@[j] == r0[j]);
                        assert(f[j] == f0[j]);
                    }
                }
            }
        }
        i = i + 1;
    }
    assert(order.subrange(0, n as int) =~= order);
    r
}

} // verus!
