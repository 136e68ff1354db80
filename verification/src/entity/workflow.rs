use vstd::prelude::*;
use crate::entity::web::link::Link;

verus! {

/// The processes a workflow can run.
#[derive(Clone, Copy, Debug, PartialEq, Eq, Structural)]
pub enum WorkflowProcess {
    Link,
    WebPage,
}

/// The arguments of a workflow process.
#[derive(Debug)]
pub enum WorkflowArguments {
    Link(Link),
}

/// When a workflow step applies.
#[derive(Debug)]
pub enum WorkflowCondition {
    IfValueIsIn(Vec<String>),
}

/// One step of a workflow.
#[derive(Debug)]
pub struct WorkflowStep {
    pub process: WorkflowProcess,
    pub conditions: WorkflowCondition,
}

} // verus!
