//! The two-bit saturating counter every stateful scheme builds on.

use vstd::prelude::*;

use crate::BranchResult;

verus! {

/// One two-bit saturating counter, as four ordered confidence states.
#[derive(Clone, Copy, Debug, PartialEq, Eq, Structural)]
pub enum TwoBitCounterState {
    StrongNot,
    Strong,
    WeakNot,
    Weak,
}

/// The saturating transition: Taken moves one step toward Strong, NotTaken
/// one step toward StrongNot, and the two extreme states absorb their own
/// direction.
pub open spec fn spec_shift(c: TwoBitCounterState, branch: BranchResult) -> TwoBitCounterState {
    match branch {
        BranchResult::Taken => match c {
            TwoBitCounterState::StrongNot => TwoBitCounterState::WeakNot,
            TwoBitCounterState::WeakNot => TwoBitCounterState::Weak,
            TwoBitCounterState::Weak => TwoBitCounterState::Strong,
            TwoBitCounterState::Strong => TwoBitCounterState::Strong,
        },
        BranchResult::NotTaken => match c {
            TwoBitCounterState::StrongNot => TwoBitCounterState::StrongNot,
            TwoBitCounterState::WeakNot => TwoBitCounterState::StrongNot,
            TwoBitCounterState::Weak => TwoBitCounterState::WeakNot,
            TwoBitCounterState::Strong => TwoBitCounterState::Weak,
        },
    }
}

/// The outcome a counter votes for: the two Taken-side states predict Taken,
/// the two NotTaken-side states predict NotTaken.
pub open spec fn spec_counter_prediction(c: TwoBitCounterState) -> BranchResult {
    match c {
        TwoBitCounterState::Weak => BranchResult::Taken,
        TwoBitCounterState::Strong => BranchResult::Taken,
        TwoBitCounterState::WeakNot => BranchResult::NotTaken,
        TwoBitCounterState::StrongNot => BranchResult::NotTaken,
    }
}

impl TwoBitCounterState {
    /// Advance the counter by one observed outcome.
    pub fn shift_result(&self, branch: BranchResult) -> (r: TwoBitCounterState)
        ensures
            r == spec_shift(*self, branch),
    {
        match branch {
            BranchResult::Taken => match &self {
                Self::StrongNot => Self::WeakNot,
                Self::WeakNot => Self::Weak,
                Self::Weak => Self::Strong,
                Self::Strong => Self::Strong,
            },
            BranchResult::NotTaken => match &self {
                Self::StrongNot => Self::StrongNot,
                Self::WeakNot => Self::StrongNot,
                Self::Weak => Self::WeakNot,
                Self::Strong => Self::Weak,
            },
        }
    }

    /// The prediction this counter currently votes for.
    pub fn to_branch_result(self) -> (r: BranchResult)
        ensures
            r == spec_counter_prediction(self),
    {
        match self {
            Self::Weak => BranchResult::Taken,
            Self::Strong => BranchResult::Taken,
            Self::WeakNot => BranchResult::NotTaken,
            Self::StrongNot => BranchResult::NotTaken,
        }
    }
}

/// Saturation laws of the counter: NotTaken keeps StrongNot at StrongNot,
/// Taken keeps Strong at Strong, and two Taken steps saturate WeakNot up to
/// Strong.
pub proof fn lemma_counter_saturation()
    ensures
        spec_shift(TwoBitCounterState::StrongNot, BranchResult::NotTaken)
            == TwoBitCounterState::StrongNot,
        spec_shift(TwoBitCounterState::Strong, BranchResult::Taken) == TwoBitCounterState::Strong,
        spec_shift(spec_shift(TwoBitCounterState::WeakNot, BranchResult::Taken), BranchResult::Taken)
            == TwoBitCounterState::Strong,
{
}

} // verus!
