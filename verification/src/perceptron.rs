//! The perceptron predictor: a table of integer weight vectors, selected by
//! a hash of the PC and trained against the global history register.

use vstd::prelude::*;

use std::collections::hash_map::DefaultHasher;
use std::hash::Hasher;

use crate::shift_history;
use crate::spec_shift_history;
use crate::BranchResult;
use crate::Predictor;
use vstd::bytes::spec_u32_to_le_bytes;
use vstd::bytes::u32_to_le_bytes;
use vstd::math::abs;
use vstd::std_specs::hash::DefaultHasherAdditionalSpecFns;
use vstd::wrapping::i32_specs;

verus! {

/// The perceptron bucket for `pc` in a table of `n` slots: a fixed 64-bit
/// hash of the PC's little-endian bytes, reduced modulo `n`. Relies on
/// vstd's model of std's DefaultHasher, which is a fixed function of the
/// bytes written, so results are reproducible across runs.
pub open spec fn spec_hash_pc(pc: u32, n: int) -> int
    recommends
        n >= 1,
{
    (DefaultHasher::spec_finish(seq![spec_u32_to_le_bytes(pc)]) as int) % n
}

/// The contribution of one history slot to a perceptron's score: the weight
/// itself when the slot recorded Taken, its negation when NotTaken, with
/// i32 wraparound.
pub open spec fn spec_term(weight: i32, b: BranchResult) -> i32 {
    match b {
        BranchResult::Taken => weight,
        BranchResult::NotTaken => i32_specs::wrapping_mul(weight, -1i32),
    }
}

/// The dot product of the first `n` weights with the history register,
/// accumulated with i32 wraparound.
pub open spec fn spec_dot(w: Seq<i32>, h: Seq<BranchResult>, n: int) -> i32
    recommends
        n <= w.len(),
        n <= h.len(),
    decreases n,
{
    if n <= 0 {
        0i32
    } else {
        i32_specs::wrapping_add(spec_dot(w, h, n - 1), spec_term(w[n - 1], h[n - 1]))
    }
}

/// A dot product of all-zero weights is zero.
pub proof fn lemma_dot_all_zero(w: Seq<i32>, h: Seq<BranchResult>, n: int)
    requires
        n <= w.len(),
        forall|i: int| 0 <= i < n ==> w[i] == 0i32,
    ensures
        spec_dot(w, h, n) == 0i32,
    decreases n,
{
    if n > 0 {
        lemma_dot_all_zero(w, h, n - 1);
    }
}

/// The mathematical state of a perceptron predictor.
#[verifier::ext_equal]
pub struct PerceptronModel {
    /// Global history register, newest outcome first; its length is the
    /// weight-vector length.
    pub history: Seq<BranchResult>,
    /// One integer weight vector per bucket.
    pub weights: Seq<Seq<i32>>,
    /// Training threshold: a correct prediction below it still trains.
    pub theta: u32,
}

impl PerceptronModel {
    pub open spec fn wf(self) -> bool {
        &&& self.history.len() >= 1
        &&& self.weights.len() >= 1
        &&& forall|p: int|
            0 <= p < self.weights.len() ==> (#[trigger] self.weights[p]).len()
                == self.history.len()
    }

    /// The bucket consulted for `pc`.
    pub open spec fn bucket(self, pc: u32) -> int {
        spec_hash_pc(pc, self.weights.len() as int)
    }

    /// The score for `pc`: the dot product of its bucket's weights with the
    /// history register.
    pub open spec fn score(self, pc: u32) -> i32 {
        spec_dot(self.weights[self.bucket(pc)], self.history, self.history.len() as int)
    }

    /// The prediction: a positive score means Taken, zero or negative means
    /// NotTaken (ties resolve to NotTaken).
    pub open spec fn prediction(self, pc: u32) -> BranchResult {
        if self.score(pc) > 0i32 {
            BranchResult::Taken
        } else {
            BranchResult::NotTaken
        }
    }

    /// Whether a training step adjusts the weights: the score's sign
    /// disagrees with the outcome's sign, or the score's magnitude is below
    /// theta. Training is skipped only for a confidently correct prediction.
    pub open spec fn trains(self, pc: u32, outcome: BranchResult) -> bool {
        let s = self.score(pc);
        let t = outcome.spec_to_int();
        ||| (t == 1i32 && s <= 0i32)
        ||| (t == -1i32 && s >= 0i32)
        ||| abs(s as int) < self.theta as int
    }

    /// The bucket's weights after one adjustment: every weight moves by
    /// the outcome's sign times its history slot's sign, with wraparound.
    pub open spec fn trained_weights(self, pc: u32, outcome: BranchResult) -> Seq<i32> {
        let w = self.weights[self.bucket(pc)];
        let t = outcome.spec_to_int();
        Seq::new(
            w.len(),
            |i: int| i32_specs::wrapping_add(w[i], (t * self.history[i].spec_to_int()) as i32),
        )
    }

    /// One training step: the score is taken against the pre-update history,
    /// the bucket's weights are adjusted iff [`Self::trains`] holds, and the
    /// outcome then shifts into the history register either way.
    pub open spec fn step(self, pc: u32, outcome: BranchResult) -> PerceptronModel {
        PerceptronModel {
            history: spec_shift_history(self.history, outcome),
            weights: if self.trains(pc, outcome) {
                self.weights.update(self.bucket(pc), self.trained_weights(pc, outcome))
            } else {
                self.weights
            },
            theta: self.theta,
        }
    }
}

/// A freshly constructed perceptron predictor: history all NotTaken and
/// every weight zero.
pub open spec fn perceptron_init(
    history_length: u32,
    table_size: u32,
    theta: u32,
) -> PerceptronModel {
    PerceptronModel {
        history: Seq::new(history_length as nat, |i: int| BranchResult::NotTaken),
        weights: Seq::new(
            table_size as nat,
            |p: int| Seq::new(history_length as nat, |i: int| 0i32),
        ),
        theta,
    }
}

/// On a perceptron whose weights are still all zero the score is 0, so the
/// very first prediction is NotTaken for every pc; and with theta 0 that
/// zero score counts as a sign mismatch against either outcome, so training
/// occurs on that first call.
pub proof fn lemma_perceptron_first_call(m: PerceptronModel, pc: u32, outcome: BranchResult)
    requires
        m.wf(),
        forall|p: int, i: int|
            0 <= p < m.weights.len() && 0 <= i < m.weights[p].len() ==> #[trigger] m.weights[p][i]
                == 0i32,
    ensures
        m.score(pc) == 0i32,
        m.prediction(pc) == BranchResult::NotTaken,
        m.theta == 0 ==> m.trains(pc, outcome),
{
    let b = m.bucket(pc);
    assert(0 <= b < m.weights.len());
    lemma_dot_all_zero(m.weights[b], m.history, m.history.len() as int);
}

/// A perceptron-based branch predictor with a fixed per-run PC hash.
pub struct CustomPredictor {
    /// Global history register; its length is the weight-vector length.
    history_register: Vec<BranchResult>,
    /// The table of perceptrons, one weight vector per bucket.
    perceptrons: Vec<Vec<i32>>,
    /// Training threshold.
    theta: u32,
}

impl View for CustomPredictor {
    type V = PerceptronModel;

    closed spec fn view(&self) -> PerceptronModel {
        PerceptronModel {
            history: self.history_register@,
            weights: Seq::new(self.perceptrons@.len(), |p: int| self.perceptrons@[p]@),
            theta: self.theta,
        }
    }
}

/// The magnitude of a score, never overflowing even at i32::MIN.
fn score_magnitude(x: i32) -> (r: u32)
    ensures
        r as int == abs(x as int),
{
    if x >= 0 {
        x as u32
    } else {
        let wide: i64 = -(x as i64);
        wide as u32
    }
}

impl CustomPredictor {
    /// A fresh perceptron predictor: `history_length` outcomes of global
    /// history (at least one), `perceptron_table_size` buckets (at least
    /// one), and training threshold `theta`.
    pub fn new(history_length: u32, perceptron_table_size: u32, theta: u32) -> (r: CustomPredictor)
        requires
            history_length >= 1,
            perceptron_table_size >= 1,
        ensures
            r@ == perceptron_init(history_length, perceptron_table_size, theta),
            r.wf(),
    {
        let proto: Vec<i32> = vec![0i32; history_length as usize];
        let r = CustomPredictor {
            history_register: vec![BranchResult::NotTaken; history_length as usize],
            perceptrons: vec![proto; perceptron_table_size as usize],
            theta,
        };
        proof {
            let init = perceptron_init(history_length, perceptron_table_size, theta);
            assert(r@.history =~= init.history);
            assert forall|p: int| 0 <= p < r@.weights.len() implies r@.weights[p] =~= init.weights[p] by {
                assert(cloned::<Vec<i32>>(proto, r.perceptrons@[p]));
            }
            assert(r@.weights =~= init.weights);
            assert(r@ =~= init);
        }
        r
    }

    /// Hash `pc` to a bucket of the perceptron table: a fixed 64-bit hash of
    /// its little-endian bytes, reduced modulo the table size.
    pub fn hash_pc(&self, pc: u32) -> (r: usize)
        requires
            self.wf(),
        ensures
            r as int == self@.bucket(pc),
            r < self@.weights.len(),
    {
        let mut hasher = DefaultHasher::new();
        let bytes = u32_to_le_bytes(pc);
        hasher.write(bytes.as_slice());
        let h = hasher.finish();
        let n = self.perceptrons.len();
        (h % (n as u64)) as usize
    }

    /// The dot product of a perceptron's weights with the global history
    /// register: each slot contributes its weight when it recorded Taken and
    /// the weight's negation when NotTaken, accumulated with wraparound.
    pub fn history_dot(&self, perceptron: &[i32]) -> (r: i32)
        requires
            perceptron@.len() <= self@.history.len(),
        ensures
            r == spec_dot(perceptron@, self@.history, perceptron@.len() as int),
    {
        let mut running_total: i32 = 0;
        let mut idx: usize = 0;
        while idx < perceptron.len()
            invariant
                idx <= perceptron@.len(),
                perceptron@.len() <= self@.history.len(),
                running_total == spec_dot(perceptron@, self@.history, idx as int),
            decreases perceptron@.len() - idx,
        {
            let w = perceptron[idx];
            let term = match self.history_register[idx] {
                BranchResult::Taken => w,
                BranchResult::NotTaken => w.wrapping_mul(-1),
            };
            running_total = running_total.wrapping_add(term);
            idx = idx + 1;
        }
        running_total
    }

    /// The raw score for `pc`: the dot product of its bucket's perceptron
    /// with the history register.
    pub fn predict(&self, pc: u32) -> (r: i32)
        requires
            self.wf(),
        ensures
            r == self@.score(pc),
    {
        let idx = self.hash_pc(pc);
        proof {
            assert(self@.weights[idx as int] == self.perceptrons@[idx as int]@);
        }
        let r = self.history_dot(self.perceptrons[idx].as_slice());
        r
    }
}

impl Predictor for CustomPredictor {
    open spec fn wf(&self) -> bool {
        self@.wf()
    }

    open spec fn prediction(&self, pc: u32) -> BranchResult {
        self@.prediction(pc)
    }

    open spec fn trains_to(&self, post: &Self, pc: u32, outcome: BranchResult) -> bool {
        post@ == self@.step(pc, outcome)
    }

    fn make_prediction(&self, pc: u32) -> (r: BranchResult) {
        let value = self.predict(pc);
        if value > 0 {
            BranchResult::Taken
        } else {
            BranchResult::NotTaken
        }
    }

    fn train_predictor(&mut self, pc: u32, outcome: BranchResult) {
        let pred = self.predict(pc);
        let t = outcome.to_int();
        let sign_mismatch = if t > 0 {
            pred <= 0
        } else {
            pred >= 0
        };
        if sign_mismatch || score_magnitude(pred) < self.theta {
            let percep_idx = self.hash_pc(pc);
            proof {
                assert(self@.weights[percep_idx as int] == self.perceptrons@[percep_idx as int]@);
            }
            let n = self.history_register.len();
            let mut new_weights: Vec<i32> = Vec::new();
            let mut idx: usize = 0;
            while idx < n
                invariant
                    old(self) == self,
                    self.wf(),
                    t == outcome.spec_to_int(),
                    percep_idx as int == self@.bucket(pc),
                    percep_idx < self.perceptrons@.len(),
                    self.perceptrons@[percep_idx as int]@ == self@.weights[percep_idx as int],
                    n == self@.history.len(),
                    idx <= n,
                    new_weights@.len() == idx as nat,
                    forall|k: int|
                        0 <= k < idx ==> new_weights@[k] == self@.trained_weights(pc, outcome)[k],
                decreases n - idx,
            {
                let x = self.history_register[idx].to_int();
                let w = self.perceptrons[percep_idx][idx];
                new_weights.push(w.wrapping_add(t * x));
                idx = idx + 1;
            }
            let ghost trained: Seq<i32> = new_weights@;
            self.perceptrons[percep_idx] = new_weights;
            proof {
                assert(trained =~= old(self)@.trained_weights(pc, outcome));
                assert(self@.weights =~= old(self)@.weights.update(
                    old(self)@.bucket(pc),
                    old(self)@.trained_weights(pc, outcome),
                ));
            }
        }
        shift_history(&mut self.history_register, outcome);
        proof {
            assert(self@ =~= old(self)@.step(pc, outcome));
        }
    }
}

} // verus!
