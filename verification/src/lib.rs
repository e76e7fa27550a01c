//! A branch-prediction simulator library.
//!
//! Each predictor is a bounded state machine over branch history: a static
//! always-taken baseline, a gshare predictor (global history XOR pc), a
//! tournament predictor (local and global tables arbitrated by a
//! meta-counter), and a perceptron predictor (integer weight vectors trained
//! against global history). A driver feeds one `(pc, outcome)` pair at a
//! time, calling `make_prediction` before `train_predictor` for each record.

use vstd::prelude::*;

pub mod counter;
pub mod gshare;
pub mod parse;
pub mod perceptron;
pub mod tournament;

pub use counter::TwoBitCounterState;
pub use gshare::GSharePredictor;
pub use parse::Predictors;
pub use perceptron::CustomPredictor;
pub use tournament::TournamentPredictor;

verus! {

/// The outcome of one executed conditional branch.
#[derive(Clone, Copy, Debug, PartialEq, Eq, Structural)]
pub enum BranchResult {
    Taken,
    NotTaken,
}

impl BranchResult {
    /// The sign a perceptron assigns to an outcome: Taken counts +1,
    /// NotTaken counts -1.
    pub open spec fn spec_to_int(self) -> i32 {
        match self {
            BranchResult::Taken => 1i32,
            BranchResult::NotTaken => -1i32,
        }
    }

    pub fn to_int(&self) -> (r: i32)
        ensures
            r == self.spec_to_int(),
    {
        match self {
            BranchResult::NotTaken => -1,
            BranchResult::Taken => 1,
        }
    }
}

/// The bit a history register records for an outcome: Taken enters as 0,
/// NotTaken as 1.
pub open spec fn outcome_bit(b: BranchResult) -> u32 {
    match b {
        BranchResult::Taken => 0,
        BranchResult::NotTaken => 1,
    }
}

/// Executable counterpart of [`outcome_bit`].
pub fn outcome_bit_exec(b: BranchResult) -> (r: u32)
    ensures
        r == outcome_bit(b),
{
    match b {
        BranchResult::Taken => 0,
        BranchResult::NotTaken => 1,
    }
}

/// A history register after one outcome is shifted into its front: the
/// newest outcome sits at position 0 and the oldest entry is dropped. An
/// empty register (zero configured history bits) is left unchanged.
pub open spec fn spec_shift_history(h: Seq<BranchResult>, outcome: BranchResult) -> Seq<
    BranchResult,
> {
    if h.len() == 0 {
        h
    } else {
        seq![outcome] + h.drop_last()
    }
}

/// Shifts `outcome` into the front of a history register, dropping the
/// oldest entry; the register's length never changes.
pub fn shift_history(v: &mut Vec<BranchResult>, outcome: BranchResult)
    ensures
        final(v)@ == spec_shift_history(old(v)@, outcome),
{
    let n = v.len();
    if n == 0 {
        return ;
    }
    let mut i: usize = n - 1;
    while i >= 1
        invariant
            v@.len() == n,
            i < n,
            forall|k: int| i < k < n ==> v@[k] == old(v)@[k - 1],
            forall|k: int| 0 <= k <= i ==> v@[k] == old(v)@[k],
        decreases i,
    {
        let moved = v[i - 1];
        v[i] = moved;
        i = i - 1;
    }
    v[0] = outcome;
    proof {
        assert(v@ =~= spec_shift_history(old(v)@, outcome));
    }
}

/// `pow2(e)` of an exponent up to 31 fits within the u32 range.
pub proof fn lemma_pow2_fits_u32(e: nat)
    requires
        e <= 31,
    ensures
        vstd::arithmetic::power2::pow2(e) <= 0x8000_0000,
{
    vstd::arithmetic::power2::lemma2_to64();
    if e < 31 {
        vstd::arithmetic::power2::lemma_pow2_strictly_increases(e, 31);
    }
}

/// A branch predictor: the driver calls `make_prediction(pc)` and then
/// `train_predictor(pc, outcome)` for every trace record, in that order.
pub trait Predictor: Sized {
    /// Structural well-formedness: construction establishes it and training
    /// preserves it.
    spec fn wf(&self) -> bool;

    /// The outcome this predictor currently predicts for `pc`.
    spec fn prediction(&self, pc: u32) -> BranchResult;

    /// How one training step takes the predictor from `self` to `post`.
    spec fn trains_to(&self, post: &Self, pc: u32, outcome: BranchResult) -> bool;

    /// Make a prediction for the conditional branch instruction at PC `pc`.
    /// Reads the tables but never mutates them.
    fn make_prediction(&self, pc: u32) -> (r: BranchResult)
        requires
            self.wf(),
        ensures
            r == self.prediction(pc),
    ;

    /// Train the predictor on the executed branch at PC `pc` with outcome
    /// `outcome`, using the same pre-update state the matching
    /// `make_prediction` call saw.
    fn train_predictor(&mut self, pc: u32, outcome: BranchResult)
        requires
            old(self).wf(),
        ensures
            final (self).wf(),
            old(self).trains_to(final (self), pc, outcome),
    ;
}

/// The trivial baseline: always predicts Taken, training is a no-op.
pub struct StaticPredictor;

impl Predictor for StaticPredictor {
    open spec fn wf(&self) -> bool {
        true
    }

    open spec fn prediction(&self, pc: u32) -> BranchResult {
        BranchResult::Taken
    }

    open spec fn trains_to(&self, post: &Self, pc: u32, outcome: BranchResult) -> bool {
        *post == *self
    }

    fn make_prediction(&self, _pc: u32) -> BranchResult {
        BranchResult::Taken
    }

    fn train_predictor(&mut self, _pc: u32, _outcome: BranchResult) {
    }
}

} // verus!
