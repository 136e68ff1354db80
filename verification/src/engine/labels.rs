use vstd::prelude::*;
use crate::error::{PiError, PiResult};
use crate::text::{concat, str_eq};

verus! {

/// Identifier of a node in the graph.
pub type NodeId = u32;

/// Labels of nodes. A node can have several labels, like tags.
#[derive(Clone, Copy, Debug, PartialEq, Eq, Structural, Hash)]
pub enum NodeLabel {
    AddedByUser,
    AddedByAI,
    AddedByWebSearch,
    AddedByGliner,
    Objective,
    DomainName,
    Link,
    RobotsTxt,
    Content,
    Heading,
    Title,
    Paragraph,
    ListItem,
    UnorderedPoints,
    OrderedPoints,
    Partial,
    SearchTerm,
    WebPage,
    WebSearch,
    WebMetadata,
    CrawlCondition,
    ProjectSettings,
    CrawlerSettings,
    ClassifierSettings,
    Classification,
    NamedEntitiesToExtract,
    ExtractedNamedEntities,
}

/// Labels of edges. Edges come in pairs, one label for each direction.
#[derive(Clone, Copy, Debug, PartialEq, Eq, Structural, Hash)]
pub enum CommonEdgeLabels {
    RelatedTo,
    ParentOf,
    ChildOf,
    ContentOf,
    PathOf,
    OwnerOf,
    BelongsTo,
    Suggests,
    SuggestedFor,
    EvaluatedFor,
    Classifies,
    ClassifiedFor,
}

/// The label of an edge.
pub type EdgeLabel = CommonEdgeLabels;

/// The name of a node label, as shown to API clients.
pub open spec fn node_label_name(label: NodeLabel) -> Seq<char> {
    match label {
        NodeLabel::AddedByUser => "AddedByUser"@,
        NodeLabel::AddedByAI => "AddedByAI"@,
        NodeLabel::AddedByWebSearch => "AddedByWebSearch"@,
        NodeLabel::AddedByGliner => "AddedByGliner"@,
        NodeLabel::Objective => "Objective"@,
        NodeLabel::DomainName => "DomainName"@,
        NodeLabel::Link => "Link"@,
        NodeLabel::RobotsTxt => "RobotsTxt"@,
        NodeLabel::Content => "Content"@,
        NodeLabel::Heading => "Heading"@,
        NodeLabel::Title => "Title"@,
        NodeLabel::Paragraph => "Paragraph"@,
        NodeLabel::ListItem => "ListItem"@,
        NodeLabel::UnorderedPoints => "UnorderedPoints"@,
        NodeLabel::OrderedPoints => "OrderedPoints"@,
        NodeLabel::Partial => "Partial"@,
        NodeLabel::SearchTerm => "SearchTerm"@,
        NodeLabel::WebPage => "WebPage"@,
        NodeLabel::WebSearch => "WebSearch"@,
        NodeLabel::WebMetadata => "WebMetadata"@,
        NodeLabel::CrawlCondition => "CrawlCondition"@,
        NodeLabel::ProjectSettings => "ProjectSettings"@,
        NodeLabel::CrawlerSettings => "CrawlerSettings"@,
        NodeLabel::ClassifierSettings => "ClassifierSettings"@,
        NodeLabel::Classification => "Classification"@,
        NodeLabel::NamedEntitiesToExtract => "NamedEntitiesToExtract"@,
        NodeLabel::ExtractedNamedEntities => "ExtractedNamedEntities"@,
    }
}

/// The name of an edge label, as shown to API clients.
pub open spec fn edge_label_name(label: EdgeLabel) -> Seq<char> {
    match label {
        CommonEdgeLabels::RelatedTo => "RelatedTo"@,
        CommonEdgeLabels::ParentOf => "ParentOf"@,
        CommonEdgeLabels::ChildOf => "ChildOf"@,
        CommonEdgeLabels::ContentOf => "ContentOf"@,
        CommonEdgeLabels::PathOf => "PathOf"@,
        CommonEdgeLabels::OwnerOf => "OwnerOf"@,
        CommonEdgeLabels::BelongsTo => "BelongsTo"@,
        CommonEdgeLabels::Suggests => "Suggests"@,
        CommonEdgeLabels::SuggestedFor => "SuggestedFor"@,
        CommonEdgeLabels::EvaluatedFor => "EvaluatedFor"@,
        CommonEdgeLabels::Classifies => "Classifies"@,
        CommonEdgeLabels::ClassifiedFor => "ClassifiedFor"@,
    }
}

impl NodeLabel {
    /// The name of this label.
    pub fn name(&self) -> (r: &'static str)
        ensures
            r@ == node_label_name(*self),
    {
        match self {
            NodeLabel::AddedByUser => "AddedByUser",
            NodeLabel::AddedByAI => "AddedByAI",
            NodeLabel::AddedByWebSearch => "AddedByWebSearch",
            NodeLabel::AddedByGliner => "AddedByGliner",
            NodeLabel::Objective => "Objective",
            NodeLabel::DomainName => "DomainName",
            NodeLabel::Link => "Link",
            NodeLabel::RobotsTxt => "RobotsTxt",
            NodeLabel::Content => "Content",
            NodeLabel::Heading => "Heading",
            NodeLabel::Title => "Title",
            NodeLabel::Paragraph => "Paragraph",
            NodeLabel::ListItem => "ListItem",
            NodeLabel::UnorderedPoints => "UnorderedPoints",
            NodeLabel::OrderedPoints => "OrderedPoints",
            NodeLabel::Partial => "Partial",
            NodeLabel::SearchTerm => "SearchTerm",
            NodeLabel::WebPage => "WebPage",
            NodeLabel::WebSearch => "WebSearch",
            NodeLabel::WebMetadata => "WebMetadata",
            NodeLabel::CrawlCondition => "CrawlCondition",
            NodeLabel::ProjectSettings => "ProjectSettings",
            NodeLabel::CrawlerSettings => "CrawlerSettings",
            NodeLabel::ClassifierSettings => "ClassifierSettings",
            NodeLabel::Classification => "Classification",
            NodeLabel::NamedEntitiesToExtract => "NamedEntitiesToExtract",
            NodeLabel::ExtractedNamedEntities => "ExtractedNamedEntities",
        }
    }

    /// Every node label, in the order of declaration.
    pub fn all() -> (r: Vec<NodeLabel>)
        ensures
            forall|l: NodeLabel| #[trigger] r@.contains(l),
    {
        let mut v: Vec<NodeLabel> = Vec::new();
        v.push(NodeLabel::AddedByUser);
        v.push(NodeLabel::AddedByAI);
        v.push(NodeLabel::AddedByWebSearch);
        v.push(NodeLabel::AddedByGliner);
        v.push(NodeLabel::Objective);
        v.push(NodeLabel::DomainName);
        v.push(NodeLabel::Link);
        v.push(NodeLabel::RobotsTxt);
        v.push(NodeLabel::Content);
        v.push(NodeLabel::Heading);
        v.push(NodeLabel::Title);
        v.push(NodeLabel::Paragraph);
        v.push(NodeLabel::ListItem);
        v.push(NodeLabel::UnorderedPoints);
        v.push(NodeLabel::OrderedPoints);
        v.push(NodeLabel::Partial);
        v.push(NodeLabel::SearchTerm);
        v.push(NodeLabel::WebPage);
        v.push(NodeLabel::WebSearch);
        v.push(NodeLabel::WebMetadata);
        v.push(NodeLabel::CrawlCondition);
        v.push(NodeLabel::ProjectSettings);
        v.push(NodeLabel::CrawlerSettings);
        v.push(NodeLabel::ClassifierSettings);
        v.push(NodeLabel::Classification);
        v.push(NodeLabel::NamedEntitiesToExtract);
        v.push(NodeLabel::ExtractedNamedEntities);
        proof {
            assert forall|l: NodeLabel| #[trigger] v@.contains(l) by {
                match l {
                    NodeLabel::AddedByUser => assert(v@[0] == l),
                    NodeLabel::AddedByAI => assert(v@[1] == l),
                    NodeLabel::AddedByWebSearch => assert(v@[2] == l),
                    NodeLabel::AddedByGliner => assert(v@[3] == l),
                    NodeLabel::Objective => assert(v@[4] == l),
                    NodeLabel::DomainName => assert(v@[5] == l),
                    NodeLabel::Link => assert(v@[6] == l),
                    NodeLabel::RobotsTxt => assert(v@[7] == l),
                    NodeLabel::Content => assert(v@[8] == l),
                    NodeLabel::Heading => assert(v@[9] == l),
                    NodeLabel::Title => assert(v@[10] == l),
                    NodeLabel::Paragraph => assert(v@[11] == l),
                    NodeLabel::ListItem => assert(v@[12] == l),
                    NodeLabel::UnorderedPoints => assert(v@[13] == l),
                    NodeLabel::OrderedPoints => assert(v@[14] == l),
                    NodeLabel::Partial => assert(v@[15] == l),
                    NodeLabel::SearchTerm => assert(v@[16] == l),
                    NodeLabel::WebPage => assert(v@[17] == l),
                    NodeLabel::WebSearch => assert(v@[18] == l),
                    NodeLabel::WebMetadata => assert(v@[19] == l),
                    NodeLabel::CrawlCondition => assert(v@[20] == l),
                    NodeLabel::ProjectSettings => assert(v@[21] == l),
                    NodeLabel::CrawlerSettings => assert(v@[22] == l),
                    NodeLabel::ClassifierSettings => assert(v@[23] == l),
                    NodeLabel::Classification => assert(v@[24] == l),
                    NodeLabel::NamedEntitiesToExtract => assert(v@[25] == l),
                    NodeLabel::ExtractedNamedEntities => assert(v@[26] == l),
                }
            }
        }
        v
    }
}

impl NodeLabel {
    /// The label with the given name; an error when no label has that name.
    pub fn from_name(name: &str) -> (r: PiResult<NodeLabel>)
        ensures
            match r {
                Ok(l) => node_label_name(l) == name@,
                Err(e) => e is CouldNotParseNodeLabel && forall|l: NodeLabel| node_label_name(l) != name@,
            },
    {
        let all = NodeLabel::all();
        let mut i: usize = 0;
        while i < all.len()
            invariant
                i <= all@.len(),
                forall|l: NodeLabel| #[trigger] all@.contains(l),
                forall|j: int| 0 <= j < i ==> node_label_name(#[trigger] all@[j]) != name@,
            decreases all@.len() - i,
        {
            let l = all[i];
            if str_eq(l.name(), name) {
                return Ok(l);
            }
            i = i + 1;
        }
        assert forall|l: NodeLabel| node_label_name(l) != name@ by {
            assert(all@.contains(l));
            let j = choose|j: int| 0 <= j < all@.len() && all@[j] == l;
        }
        Err(PiError::CouldNotParseNodeLabel(concat("Could not parse NodeLabel from string: ", name)))
    }
}

impl CommonEdgeLabels {
    /// The name of this label.
    pub fn name(&self) -> (r: &'static str)
        ensures
            r@ == edge_label_name(*self),
    {
        match self {
            CommonEdgeLabels::RelatedTo => "RelatedTo",
            CommonEdgeLabels::ParentOf => "ParentOf",
            CommonEdgeLabels::ChildOf => "ChildOf",
            CommonEdgeLabels::ContentOf => "ContentOf",
            CommonEdgeLabels::PathOf => "PathOf",
            CommonEdgeLabels::OwnerOf => "OwnerOf",
            CommonEdgeLabels::BelongsTo => "BelongsTo",
            CommonEdgeLabels::Suggests => "Suggests",
            CommonEdgeLabels::SuggestedFor => "SuggestedFor",
            CommonEdgeLabels::EvaluatedFor => "EvaluatedFor",
            CommonEdgeLabels::Classifies => "Classifies",
            CommonEdgeLabels::ClassifiedFor => "ClassifiedFor",
        }
    }
}

} // verus!
