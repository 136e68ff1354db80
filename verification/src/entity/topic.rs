use vstd::prelude::*;

verus! {

/// A topic that a project follows.
#[derive(Clone, Debug)]
pub struct Topic(pub String);

/// The action of finding search terms for a topic in a link's page.
#[derive(Clone, Copy, Debug)]
pub struct TopicLinkSearchTerms {
    pub processed: bool,
}

/// A term to search for.
#[derive(Clone, Debug)]
pub struct SearchTerm(pub String);

} // verus!
