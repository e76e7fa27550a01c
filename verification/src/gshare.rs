//! The gshare predictor: a table of saturating counters indexed by the XOR
//! of the branch PC with the folded global history.

use vstd::prelude::*;

use std::collections::HashMap;

use crate::counter::spec_counter_prediction;
use crate::counter::spec_shift;
use crate::counter::TwoBitCounterState;
use crate::outcome_bit;
use crate::outcome_bit_exec;
use crate::shift_history;
use crate::spec_shift_history;
use crate::BranchResult;
use crate::Predictor;
use crate::lemma_pow2_fits_u32;
use vstd::arithmetic::power2::lemma2_to64;
use vstd::arithmetic::power2::lemma_pow2_unfold;
use vstd::arithmetic::power2::pow2;
use vstd::bits::lemma_u32_shl_is_mul;

verus! {

broadcast use vstd::std_specs::hash::group_hash_axioms;

/// The history register folded into an integer: the register is read from
/// its newest entry outward, each outcome contributing one bit (Taken 0,
/// NotTaken 1), the newest outcome ending up in the most significant
/// position of the folded value. Only the first `n` entries are read.
pub open spec fn spec_fold_history(h: Seq<BranchResult>, n: int) -> int
    recommends
        n <= h.len(),
    decreases n,
{
    if n <= 0 {
        0
    } else {
        spec_fold_history(h, n - 1) * 2 + outcome_bit(h[n - 1])
    }
}

/// The folded history occupies at most `n` bits.
pub proof fn lemma_fold_history_bound(h: Seq<BranchResult>, n: int)
    requires
        0 <= n,
    ensures
        0 <= spec_fold_history(h, n) < pow2(n as nat),
    decreases n,
{
    if n == 0 {
        lemma2_to64();
    } else {
        lemma_fold_history_bound(h, n - 1);
        lemma_pow2_unfold(n as nat);
    }
}

/// How many history entries are folded: all of them, clamped at the 32 bits
/// an index can hold.
pub open spec fn folded_width(hist_bits: u32) -> int {
    if hist_bits < 32 {
        hist_bits as int
    } else {
        32
    }
}

/// The mathematical state of a gshare predictor.
#[verifier::ext_equal]
pub struct GShareModel {
    /// Configured history length, which is also the width of the index mask.
    pub hist_bits: u32,
    /// Global history register, newest outcome first.
    pub history: Seq<BranchResult>,
    /// Sparse counter table; an absent index stands for StrongNot.
    pub table: Map<u32, TwoBitCounterState>,
}

impl GShareModel {
    pub open spec fn wf(self) -> bool {
        self.history.len() == self.hist_bits as nat
    }

    /// The folded global history.
    pub open spec fn folded(self) -> int {
        spec_fold_history(self.history, folded_width(self.hist_bits))
    }

    /// Mask keeping the `hist_bits` low bits of an index, saturating at the
    /// full 32-bit width.
    pub open spec fn index_mask(self) -> u32 {
        if self.hist_bits >= 32 {
            u32::MAX
        } else {
            (pow2(self.hist_bits as nat) - 1) as u32
        }
    }

    /// The counter-table index for `pc`: pc XOR folded history, masked to
    /// the `hist_bits` low bits.
    pub open spec fn index(self, pc: u32) -> u32 {
        (pc ^ (self.folded() as u32)) & self.index_mask()
    }

    /// The prediction for `pc`: the vote of the indexed counter, where an
    /// index never trained before counts as NotTaken.
    pub open spec fn prediction(self, pc: u32) -> BranchResult {
        let idx = self.index(pc);
        if self.table.contains_key(idx) {
            spec_counter_prediction(self.table[idx])
        } else {
            BranchResult::NotTaken
        }
    }

    /// One training step: the counter at the index computed from the
    /// pre-update history advances by `outcome` (from StrongNot if the index
    /// was never touched), and `outcome` then shifts into the history.
    pub open spec fn step(self, pc: u32, outcome: BranchResult) -> GShareModel {
        let idx = self.index(pc);
        let cur = if self.table.contains_key(idx) {
            self.table[idx]
        } else {
            TwoBitCounterState::StrongNot
        };
        GShareModel {
            hist_bits: self.hist_bits,
            history: spec_shift_history(self.history, outcome),
            table: self.table.insert(idx, spec_shift(cur, outcome)),
        }
    }
}

/// A freshly constructed gshare predictor: history all NotTaken, an empty
/// counter table.
pub open spec fn gshare_init(hist_bits: u32) -> GShareModel {
    GShareModel {
        hist_bits,
        history: Seq::new(hist_bits as nat, |i: int| BranchResult::NotTaken),
        table: Map::empty(),
    }
}

/// The prediction sequence a gshare state produces along a trace, predicting
/// then training on each `(pc, outcome)` record in order.
pub open spec fn spec_replay(m: GShareModel, trace: Seq<(u32, BranchResult)>) -> Seq<BranchResult>
    decreases trace.len(),
{
    if trace.len() == 0 {
        Seq::empty()
    } else {
        seq![m.prediction(trace.first().0)] + spec_replay(
            m.step(trace.first().0, trace.first().1),
            trace.drop_first(),
        )
    }
}

/// Training and prediction are functions of the state alone: equal gshare
/// states replay any one trace to equal prediction sequences, so two fresh
/// instances with the same configuration behave identically.
pub proof fn lemma_gshare_determinism(
    m1: GShareModel,
    m2: GShareModel,
    trace: Seq<(u32, BranchResult)>,
)
    requires
        m1 == m2,
    ensures
        spec_replay(m1, trace) == spec_replay(m2, trace),
{
}

/// With zero history bits the index mask is 0, so every lookup lands on the
/// single table slot 0 whatever the history register holds and whatever the
/// pc: zero-history states with equal tables predict alike everywhere.
pub proof fn lemma_gshare_zero_history(m1: GShareModel, m2: GShareModel, pc1: u32, pc2: u32)
    requires
        m1.hist_bits == 0,
        m2.hist_bits == 0,
        m1.table == m2.table,
    ensures
        m1.index(pc1) == 0,
        m2.index(pc2) == 0,
        m1.prediction(pc1) == m2.prediction(pc2),
{
    lemma2_to64();
    let x1 = pc1 ^ (m1.folded() as u32);
    let x2 = pc2 ^ (m2.folded() as u32);
    assert(x1 & 0u32 == 0) by (bit_vector);
    assert(x2 & 0u32 == 0) by (bit_vector);
}

/// A global-history-indexed table of saturating counters.
pub struct GSharePredictor {
    hist_bits: u32,
    history_register: Vec<BranchResult>,
    state_table: HashMap<u32, TwoBitCounterState>,
}

impl View for GSharePredictor {
    type V = GShareModel;

    closed spec fn view(&self) -> GShareModel {
        GShareModel {
            hist_bits: self.hist_bits,
            history: self.history_register@,
            table: self.state_table@,
        }
    }
}

impl GSharePredictor {
    /// A fresh gshare predictor for `hist_bits` bits of global history.
    pub fn new(hist_bits: u32) -> (r: GSharePredictor)
        ensures
            r@ == gshare_init(hist_bits),
            r.wf(),
    {
        let r = GSharePredictor {
            hist_bits,
            history_register: vec![BranchResult::NotTaken; hist_bits as usize],
            state_table: HashMap::new(),
        };
        proof {
            assert(r@.history =~= gshare_init(hist_bits).history);
            assert(r@ =~= gshare_init(hist_bits));
        }
        r
    }

    /// Fold the history register into an integer, newest outcome in the most
    /// significant position, reading at most 32 entries.
    pub fn hist_to_u32(&self) -> (x: u32)
        requires
            self.wf(),
        ensures
            x as int == self@.folded(),
    {
        let n: u32 = if self.hist_bits < 32 {
            self.hist_bits
        } else {
            32
        };
        let mut x: u32 = 0;
        let mut i: u32 = 0;
        while i < n
            invariant
                self.wf(),
                n as int == folded_width(self.hist_bits),
                n as nat <= self.history_register@.len(),
                i <= n,
                n <= 32,
                x as int == spec_fold_history(self.history_register@, i as int),
            decreases n - i,
        {
            proof {
                lemma_fold_history_bound(self.history_register@, i as int);
                lemma_pow2_fits_u32(i as nat);
            }
            let b = outcome_bit_exec(self.history_register[i as usize]);
            x = x * 2 + b;
            i = i + 1;
        }
        x
    }

    /// The counter-table index for `pc`: pc XOR folded history, masked to
    /// the `hist_bits` low bits (all 32 when `hist_bits` is 32 or more).
    pub fn xor_pc_history(&self, pc: u32) -> (r: u32)
        requires
            self.wf(),
        ensures
            r == self@.index(pc),
    {
        let mask: u32 = if self.hist_bits >= 32 {
            u32::MAX
        } else {
            proof {
                lemma_pow2_fits_u32(self.hist_bits as nat);
                vstd::arithmetic::power2::lemma_pow2_pos(self.hist_bits as nat);
                lemma_u32_shl_is_mul(1u32, self.hist_bits);
            }
            (1u32 << self.hist_bits) - 1
        };
        let folded = self.hist_to_u32();
        proof {
            lemma_fold_history_bound(self.history_register@, folded_width(self.hist_bits));
            assert(mask == self@.index_mask());
        }
        (pc ^ folded) & mask
    }
}

impl Predictor for GSharePredictor {
    open spec fn wf(&self) -> bool {
        self@.wf()
    }

    open spec fn prediction(&self, pc: u32) -> BranchResult {
        self@.prediction(pc)
    }

    open spec fn trains_to(&self, post: &Self, pc: u32, outcome: BranchResult) -> bool {
        post@ == self@.step(pc, outcome)
    }

    fn make_prediction(&self, pc: u32) -> (r: BranchResult) {
        let table_index = self.xor_pc_history(pc);
        match self.state_table.get(&table_index) {
            Some(state) => state.to_branch_result(),
            None => BranchResult::NotTaken,
        }
    }

    fn train_predictor(&mut self, pc: u32, outcome: BranchResult) {
        let index = self.xor_pc_history(pc);
        shift_history(&mut self.history_register, outcome);
        let current: TwoBitCounterState = match self.state_table.get(&index) {
            Some(state) => *state,
            None => TwoBitCounterState::StrongNot,
        };
        self.state_table.insert(index, current.shift_result(outcome));
        proof {
            assert(self@ =~= old(self)@.step(pc, outcome));
        }
    }
}

} // verus!
