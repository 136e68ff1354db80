use vstd::prelude::*;
use crate::engine::flags::NodeFlags;
use crate::engine::labels::{EdgeLabel, NodeId, NodeLabel};
use crate::entity::classifier::{Classification, ClassifierSettings};
use crate::entity::conclusion::Conclusion;
use crate::entity::crawler::{CrawlerSettings, CrawlerSettingsView};
use crate::entity::named_entity::{EntityName, ExtractedEntity};
use crate::entity::project_settings::ProjectSettings;
use crate::entity::web::link::Link;
use crate::entity::web::metadata::{WebMetadata, WebMetadataView};

verus! {

/// The data that a node carries.
#[derive(Debug)]
pub enum Payload {
    Link(Link),
    WebMetadata(WebMetadata),
    Text(String),
    /// A tree can contain nodes of any payload type, connected by edges.
    Tree,
    ProjectSettings(ProjectSettings),
    CrawlerSettings(CrawlerSettings),
    ClassifierSettings(ClassifierSettings),
    Classification(Classification),
    NamedEntitiesToExtract(Vec<EntityName>),
    ExtractedNamedEntities(Vec<ExtractedEntity>),
    Conclusion(Conclusion),
}

/// The contents of a payload, with lists as sequences.
pub enum PayloadView {
    Link(Link),
    WebMetadata(WebMetadataView),
    Text(String),
    Tree,
    ProjectSettings(ProjectSettings),
    CrawlerSettings(CrawlerSettingsView),
    ClassifierSettings(ClassifierSettings),
    Classification(Classification),
    NamedEntitiesToExtract(Seq<EntityName>),
    ExtractedNamedEntities(Seq<ExtractedEntity>),
    Conclusion(Conclusion),
}

impl View for Payload {
    type V = PayloadView;

    open spec fn view(&self) -> PayloadView {
        match self {
            Payload::Link(l) => PayloadView::Link(*l),
            Payload::WebMetadata(m) => PayloadView::WebMetadata(m@),
            Payload::Text(t) => PayloadView::Text(*t),
            Payload::Tree => PayloadView::Tree,
            Payload::ProjectSettings(p) => PayloadView::ProjectSettings(*p),
            Payload::CrawlerSettings(c) => PayloadView::CrawlerSettings(c@),
            Payload::ClassifierSettings(c) => PayloadView::ClassifierSettings(*c),
            Payload::Classification(c) => PayloadView::Classification(*c),
            Payload::NamedEntitiesToExtract(v) => PayloadView::NamedEntitiesToExtract(v@),
            Payload::ExtractedNamedEntities(v) => PayloadView::ExtractedNamedEntities(v@),
            Payload::Conclusion(c) => PayloadView::Conclusion(*c),
        }
    }
}

impl Clone for Payload {
    fn clone(&self) -> (r: Self)
        ensures
            r@ == self@,
    {
        match self {
            Payload::Link(l) => Payload::Link(l.clone()),
            Payload::WebMetadata(m) => Payload::WebMetadata(m.clone()),
            Payload::Text(t) => Payload::Text(t.clone()),
            Payload::Tree => Payload::Tree,
            Payload::ProjectSettings(p) => Payload::ProjectSettings(*p),
            Payload::CrawlerSettings(c) => Payload::CrawlerSettings(c.clone()),
            Payload::ClassifierSettings(c) => Payload::ClassifierSettings(c.clone()),
            Payload::Classification(c) => Payload::Classification(c.clone()),
            Payload::NamedEntitiesToExtract(v) => {
                let c = v.clone();
                assert(c@ =~= v@);
                Payload::NamedEntitiesToExtract(c)
            },
            Payload::ExtractedNamedEntities(v) => {
                let c = v.clone();
                assert(c@ =~= v@);
                Payload::ExtractedNamedEntities(c)
            },
            Payload::Conclusion(c) => Payload::Conclusion(c.clone()),
        }
    }
}

/// A node of the graph.
#[derive(Debug)]
pub struct NodeItem {
    pub id: NodeId,
    /// A node can have multiple labels, like tags.
    pub labels: Vec<NodeLabel>,
    pub payload: Payload,
    pub flags: NodeFlags,
    /// Milliseconds since the UNIX epoch at the last write of this node.
    pub written_at: i64,
}

/// The contents of a node.
pub struct NodeItemView {
    pub id: NodeId,
    pub labels: Seq<NodeLabel>,
    pub payload: PayloadView,
    pub flags: NodeFlags,
    pub written_at: i64,
}

impl View for NodeItem {
    type V = NodeItemView;

    open spec fn view(&self) -> NodeItemView {
        NodeItemView {
            id: self.id,
            labels: self.labels@,
            payload: self.payload@,
            flags: self.flags,
            written_at: self.written_at,
        }
    }
}

pub fn clone_labels(v: &Vec<NodeLabel>) -> (r: Vec<NodeLabel>)
    ensures
        r@ == v@,
{
    let c = v.clone();
    assert(c@ =~= v@);
    c
}

impl Clone for NodeItem {
    fn clone(&self) -> (r: Self)
        ensures
            r@ == self@,
    {
        NodeItem {
            id: self.id,
            labels: clone_labels(&self.labels),
            payload: self.payload.clone(),
            flags: self.flags,
            written_at: self.written_at,
        }
    }
}

/// True when a label sequence holds the label.
pub open spec fn has_label(labels: Seq<NodeLabel>, label: NodeLabel) -> bool {
    labels.contains(label)
}

/// True when the vector of labels holds the label.
pub fn labels_contain(labels: &Vec<NodeLabel>, label: NodeLabel) -> (r: bool)
    ensures
        r == labels@.contains(label),
{
    let mut i: usize = 0;
    while i < labels.len()
        invariant
            i <= labels@.len(),
            forall|j: int| 0 <= j < i ==> labels@[j] != label,
        decreases labels@.len() - i,
    {
        if labels[i] == label {
            return true;
        }
        i = i + 1;
    }
    false
}

/// All outgoing edges of a node: the node at the other end and the label of
/// the edge.
#[derive(Debug)]
pub struct NodeEdges {
    pub edges: Vec<(NodeId, EdgeLabel)>,
    /// Milliseconds since the UNIX epoch at the last write of this edge list.
    pub written_at: i64,
}

pub struct NodeEdgesView {
    pub edges: Seq<(NodeId, EdgeLabel)>,
    pub written_at: i64,
}

impl View for NodeEdges {
    type V = NodeEdgesView;

    open spec fn view(&self) -> NodeEdgesView {
        NodeEdgesView { edges: self.edges@, written_at: self.written_at }
    }
}

pub fn copy_edges(v: &Vec<(NodeId, EdgeLabel)>) -> (r: Vec<(NodeId, EdgeLabel)>)
    ensures
        r@ == v@,
{
    let mut r: Vec<(NodeId, EdgeLabel)> = Vec::new();
    let mut i: usize = 0;
    while i < v.len()
        invariant
            i <= v@.len(),
            r@ == v@.subrange(0, i as int),
        decreases v@.len() - i,
    {
        let e = v[i];
        r.push(e);
        i = i + 1;
        assert(r@ =~= v@.subrange(0, i as int));
    }
    assert(v@.subrange(0, v@.len() as int) =~= v@);
    r
}

impl Clone for NodeEdges {
    fn clone(&self) -> (r: Self)
        ensures
            r@ == self@,
    {
        NodeEdges { edges: copy_edges(&self.edges), written_at: self.written_at }
    }
}

/// The ID of a node that was found in the graph, or of one that was added.
#[derive(Clone, Copy, Debug, PartialEq, Eq, Structural)]
pub enum ExistingOrNewNodeId {
    Existing(NodeId),
    New(NodeId),
}

impl ExistingOrNewNodeId {
    pub open spec fn spec_node_id(self) -> NodeId {
        match self {
            ExistingOrNewNodeId::Existing(id) => id,
            ExistingOrNewNodeId::New(id) => id,
        }
    }

    pub fn get_node_id(&self) -> (r: NodeId)
        ensures
            r == self.spec_node_id(),
    {
        match self {
            ExistingOrNewNodeId::Existing(id) => *id,
            ExistingOrNewNodeId::New(id) => *id,
        }
    }
}

} // verus!
