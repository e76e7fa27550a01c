//! The tournament predictor: a global counter table indexed by a global
//! history register, a per-PC local predictor, and a meta-counter that
//! arbitrates between the two.

use vstd::prelude::*;

use crate::counter::spec_counter_prediction;
use crate::counter::spec_shift;
use crate::counter::TwoBitCounterState;
use crate::lemma_pow2_fits_u32;
use crate::outcome_bit;
use crate::outcome_bit_exec;
use crate::BranchResult;
use crate::Predictor;
use vstd::arithmetic::power2::lemma_pow2_unfold;
use vstd::arithmetic::power2::pow2;
use vstd::bits::lemma_usize_pow2_no_overflow;
use vstd::bits::lemma_usize_shl_is_mul;

verus! {

broadcast use vstd::arithmetic::power2::lemma_pow2_pos;

/// The mathematical state of a tournament predictor.
#[verifier::ext_equal]
pub struct TournamentModel {
    /// Width of the global history register.
    pub ghist_bits: u32,
    /// Width of each per-PC local history pattern.
    pub lhist_bits: u32,
    /// Number of low PC bits that select a local-history slot.
    pub pc_index: u32,
    /// Dense global counter table of size `2^ghist_bits`.
    pub g_state: Seq<TwoBitCounterState>,
    /// Dense local counter table of size `2^lhist_bits`.
    pub l_state: Seq<TwoBitCounterState>,
    /// Per-PC local history patterns, one slot per low-PC-bits value.
    pub l_pattern: Seq<u32>,
    /// The arbitrating meta-counter: its Taken side selects the local
    /// predictor, its NotTaken side the global one.
    pub m_state: TwoBitCounterState,
    /// The global history register, kept below `2^ghist_bits`.
    pub ghist: nat,
}

impl TournamentModel {
    pub open spec fn wf(self) -> bool {
        &&& self.ghist_bits + 1 < usize::BITS
        &&& self.lhist_bits < 32
        &&& self.pc_index < 32
        &&& self.g_state.len() == pow2(self.ghist_bits as nat)
        &&& self.l_state.len() == pow2(self.lhist_bits as nat)
        &&& self.l_pattern.len() == pow2(self.pc_index as nat)
        &&& self.ghist < pow2(self.ghist_bits as nat)
        &&& forall|k: int|
            0 <= k < self.l_pattern.len() ==> (#[trigger] self.l_pattern[k]) < pow2(
                self.lhist_bits as nat,
            )
    }

    /// The local-history slot for `pc`: its `pc_index` low bits.
    pub open spec fn local_slot(self, pc: u32) -> int {
        (pc as int) % (pow2(self.pc_index as nat) as int)
    }

    /// The vote of the local predictor: the counter selected by the local
    /// history pattern of the branch's slot.
    pub open spec fn local_prediction(self, pc: u32) -> BranchResult {
        spec_counter_prediction(self.l_state[self.l_pattern[self.local_slot(pc)] as int])
    }

    /// The vote of the global predictor: the counter selected by the global
    /// history register.
    pub open spec fn global_prediction(self) -> BranchResult {
        spec_counter_prediction(self.g_state[self.ghist as int])
    }

    /// The arbitrated prediction: the meta-counter's Taken side selects the
    /// local vote, its NotTaken side the global vote.
    pub open spec fn prediction(self, pc: u32) -> BranchResult {
        if spec_counter_prediction(self.m_state) == BranchResult::Taken {
            self.local_prediction(pc)
        } else {
            self.global_prediction()
        }
    }

    /// The meta-counter after one training step: when the two sub-predictors
    /// disagree it shifts toward whichever matched the outcome, rewarding
    /// local with a synthetic Taken and global with a synthetic NotTaken.
    pub open spec fn meta_trained(self, pc: u32, outcome: BranchResult) -> TournamentModel {
        let lp = self.local_prediction(pc);
        let gp = self.global_prediction();
        let m = if lp != gp {
            if lp == outcome {
                spec_shift(self.m_state, BranchResult::Taken)
            } else {
                spec_shift(self.m_state, BranchResult::NotTaken)
            }
        } else {
            self.m_state
        };
        TournamentModel { m_state: m, ..self }
    }

    /// The global side after one training step: the counter at the current
    /// global history advances, and the outcome's bit shifts into the
    /// register, masked to `ghist_bits`.
    pub open spec fn global_trained(self, outcome: BranchResult) -> TournamentModel {
        TournamentModel {
            g_state: self.g_state.update(
                self.ghist as int,
                spec_shift(self.g_state[self.ghist as int], outcome),
            ),
            ghist: ((2 * self.ghist + outcome_bit(outcome)) as int % (pow2(
                self.ghist_bits as nat,
            ) as int)) as nat,
            ..self
        }
    }

    /// The local side after one training step: the counter selected by the
    /// branch's pattern advances, and the outcome's bit shifts into that
    /// pattern, masked to `lhist_bits`.
    pub open spec fn local_trained(self, pc: u32, outcome: BranchResult) -> TournamentModel {
        let slot = self.local_slot(pc);
        let li = self.l_pattern[slot] as int;
        TournamentModel {
            l_state: self.l_state.update(li, spec_shift(self.l_state[li], outcome)),
            l_pattern: self.l_pattern.update(
                slot,
                ((2 * self.l_pattern[slot] + outcome_bit(outcome)) as int % (pow2(
                    self.lhist_bits as nat,
                ) as int)) as u32,
            ),
            ..self
        }
    }

    /// One full training step: arbitration first, against the pre-update
    /// votes, then the global side, then the local side.
    pub open spec fn step(self, pc: u32, outcome: BranchResult) -> TournamentModel {
        self.meta_trained(pc, outcome).global_trained(outcome).local_trained(pc, outcome)
    }
}

/// A freshly constructed tournament predictor: every counter starts at
/// WeakNot, all history empty.
pub open spec fn tournament_init(ghist_bits: u32, lhist_bits: u32, pc_index: u32) -> TournamentModel {
    TournamentModel {
        ghist_bits,
        lhist_bits,
        pc_index,
        g_state: Seq::new(pow2(ghist_bits as nat), |i: int| TwoBitCounterState::WeakNot),
        l_state: Seq::new(pow2(lhist_bits as nat), |i: int| TwoBitCounterState::WeakNot),
        l_pattern: Seq::new(pow2(pc_index as nat), |i: int| 0u32),
        m_state: TwoBitCounterState::WeakNot,
        ghist: 0,
    }
}

/// A tournament of a local and a global predictor, arbitrated by a
/// meta-counter.
pub struct TournamentPredictor {
    ghist_bits: u32,
    lhist_bits: u32,
    pc_index: u32,
    g_state: Vec<TwoBitCounterState>,
    l_state: Vec<TwoBitCounterState>,
    l_pattern: Vec<u32>,
    m_state: TwoBitCounterState,
    ghist: usize,
}

impl View for TournamentPredictor {
    type V = TournamentModel;

    closed spec fn view(&self) -> TournamentModel {
        TournamentModel {
            ghist_bits: self.ghist_bits,
            lhist_bits: self.lhist_bits,
            pc_index: self.pc_index,
            g_state: self.g_state@,
            l_state: self.l_state@,
            l_pattern: self.l_pattern@,
            m_state: self.m_state,
            ghist: self.ghist as nat,
        }
    }
}

impl TournamentPredictor {
    /// A fresh tournament predictor: `ghist_bits` of global history,
    /// `lhist_bits` of local history per slot, and the `pc_index` low PC
    /// bits selecting a local slot. The widths must leave the dense table
    /// sizes representable on this machine.
    pub fn new(ghist_bits: u32, lhist_bits: u32, pc_index: u32) -> (r: TournamentPredictor)
        requires
            ghist_bits + 1 < usize::BITS,
            lhist_bits < 32,
            pc_index < 32,
        ensures
            r@ == tournament_init(ghist_bits, lhist_bits, pc_index),
            r.wf(),
    {
        proof {
            lemma_usize_pow2_no_overflow(ghist_bits as nat);
            lemma_usize_pow2_no_overflow(lhist_bits as nat);
            lemma_usize_pow2_no_overflow(pc_index as nat);
            lemma_usize_shl_is_mul(1usize, ghist_bits as usize);
            lemma_usize_shl_is_mul(1usize, lhist_bits as usize);
            lemma_usize_shl_is_mul(1usize, pc_index as usize);
        }
        let r = TournamentPredictor {
            ghist_bits,
            lhist_bits,
            pc_index,
            g_state: vec![TwoBitCounterState::WeakNot; 1usize << (ghist_bits as usize)],
            l_state: vec![TwoBitCounterState::WeakNot; 1usize << (lhist_bits as usize)],
            l_pattern: vec![0u32; 1usize << (pc_index as usize)],
            m_state: TwoBitCounterState::WeakNot,
            ghist: 0,
        };
        proof {
            assert(r@.g_state =~= tournament_init(ghist_bits, lhist_bits, pc_index).g_state);
            assert(r@.l_state =~= tournament_init(ghist_bits, lhist_bits, pc_index).l_state);
            assert(r@.l_pattern =~= tournament_init(ghist_bits, lhist_bits, pc_index).l_pattern);
            assert(r@ =~= tournament_init(ghist_bits, lhist_bits, pc_index));
        }
        r
    }

    /// The local predictor's vote for `pc`.
    pub fn make_local_prediction(&self, pc: u32) -> (r: BranchResult)
        requires
            self.wf(),
        ensures
            r == self@.local_prediction(pc),
    {
        let l_pattern_index = (pc as usize) % self.l_pattern.len();
        let l_index = self.l_pattern[l_pattern_index];
        self.l_state[l_index as usize].to_branch_result()
    }

    /// Train the local side: advance the counter the branch's pattern
    /// selects, then shift the outcome into that pattern.
    pub fn train_local_predictor(&mut self, pc: u32, outcome: BranchResult)
        requires
            old(self).wf(),
        ensures
            final (self)@ == old(self)@.local_trained(pc, outcome),
            final (self).wf(),
    {
        proof {
            lemma_pow2_fits_u32(self@.lhist_bits as nat);
        }
        let l_pattern_index = (pc as usize) % self.l_pattern.len();
        let l_index = self.l_pattern[l_pattern_index] as usize;
        let updated = self.l_state[l_index].shift_result(outcome);
        self.l_state[l_index] = updated;
        let len32 = self.l_state.len() as u32;
        let new_pattern = (self.l_pattern[l_pattern_index] * 2 + outcome_bit_exec(outcome)) % len32;
        self.l_pattern[l_pattern_index] = new_pattern;
        proof {
            assert(self@ =~= old(self)@.local_trained(pc, outcome));
        }
    }

    /// The global predictor's vote.
    pub fn make_global_prediction(&self, _pc: u32) -> (r: BranchResult)
        requires
            self.wf(),
        ensures
            r == self@.global_prediction(),
    {
        self.g_state[self.ghist].to_branch_result()
    }

    /// Train the global side: advance the counter at the current global
    /// history, then shift the outcome into the register.
    pub fn train_global_predictor(&mut self, _pc: u32, outcome: BranchResult)
        requires
            old(self).wf(),
        ensures
            final (self)@ == old(self)@.global_trained(outcome),
            final (self).wf(),
    {
        proof {
            lemma_usize_pow2_no_overflow((self@.ghist_bits + 1) as nat);
            lemma_pow2_unfold((self@.ghist_bits + 1) as nat);
        }
        let updated = self.g_state[self.ghist].shift_result(outcome);
        self.g_state[self.ghist] = updated;
        let b = outcome_bit_exec(outcome) as usize;
        self.ghist = (self.ghist * 2 + b) % self.g_state.len();
        proof {
            assert(self@ =~= old(self)@.global_trained(outcome));
        }
    }
}

impl Predictor for TournamentPredictor {
    open spec fn wf(&self) -> bool {
        self@.wf()
    }

    open spec fn prediction(&self, pc: u32) -> BranchResult {
        self@.prediction(pc)
    }

    open spec fn trains_to(&self, post: &Self, pc: u32, outcome: BranchResult) -> bool {
        post@ == self@.step(pc, outcome)
    }

    fn make_prediction(&self, pc: u32) -> (r: BranchResult) {
        match self.m_state {
            TwoBitCounterState::Weak => self.make_local_prediction(pc),
            TwoBitCounterState::Strong => self.make_local_prediction(pc),
            TwoBitCounterState::StrongNot => self.make_global_prediction(pc),
            TwoBitCounterState::WeakNot => self.make_global_prediction(pc),
        }
    }

    fn train_predictor(&mut self, pc: u32, outcome: BranchResult) {
        let local_prediction = self.make_local_prediction(pc);
        let global_prediction = self.make_global_prediction(pc);

        if local_prediction != global_prediction {
            if local_prediction == outcome {
                self.m_state = self.m_state.shift_result(BranchResult::Taken);
            } else {
                self.m_state = self.m_state.shift_result(BranchResult::NotTaken);
            }
        }
        proof {
            assert(self@ =~= old(self)@.meta_trained(pc, outcome));
        }

        self.train_global_predictor(pc, outcome);
        self.train_local_predictor(pc, outcome);
        proof {
            assert(self@ =~= old(self)@.step(pc, outcome));
        }
    }
}

} // verus!
