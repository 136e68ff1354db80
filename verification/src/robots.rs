use vstd::prelude::*;

verus! {

/// What `texting_robots` decides for a URL under a `robots.txt`: `None` when
/// `Robot::new` cannot parse the file for the agent, otherwise whether
/// `Robot::allowed` lets the agent fetch the URL.
pub uninterp spec fn robots_decision(agent: Seq<char>, robots_txt: Seq<char>, url: Seq<char>) -> Option<bool>;

/// Checks a URL against a `robots.txt` file for a crawler agent.
///
/// Calls `texting_robots::Robot::new` with the agent and the bytes of the
/// file, then `Robot::allowed` with the URL. The contract names the outcome;
/// the rules of the robots exclusion standard are not restated.
#[verifier::external_body]
pub(crate) fn robots_allows(agent: &str, robots_txt: &str, url: &str) -> (r: Option<bool>)
    ensures
        r == robots_decision(agent@, robots_txt@, url@),
{
    match texting_robots::Robot::new(agent, robots_txt.as_bytes()) {
        Ok(robot) => Some(robot.allowed(url)),
        Err(_) => None,
    }
}

} // verus!
