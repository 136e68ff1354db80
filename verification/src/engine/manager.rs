use vstd::prelude::*;

verus! {

/// Jobs that the engine manager runs in the background.
#[derive(Clone, Copy, Debug, PartialEq, Eq, Structural, Hash)]
pub enum JobType {
    SetupGliner,
}

} // verus!
