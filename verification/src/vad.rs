use vstd::prelude::*;

verus! {

/// What voice-activity detection decided for one frame.
#[derive(Debug, Clone, Copy, PartialEq, Eq, Structural)]
pub enum VadDecision {
    Speech,
    Silence,
}

} // verus!
