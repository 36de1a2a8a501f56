//! Token sampling strategies over score vectors.
//!
//! A score vector holds one value per vocabulary entry, produced by one
//! evaluation.  Scores, temperatures, guidance scales and surprise values are
//! carried in a signed fixed-point representation with [`SCALE_ONE`] standing
//! for 1: the adapter that owns the engine's raw output quantizes into it,
//! and every decision made on the quantized values — which index is the
//! greedy choice, how two score vectors blend, which candidates survive
//! truncation, how the Mirostat controller's state moves — is exact integer
//! arithmetic with a contract.

use vstd::prelude::*;

verus! {

/// The fixed-point representation of 1.
pub const SCALE_ONE: i64 = 65536;

/// Magnitude bound on scores, temperatures, guidance scales and surprise
/// values; keeps every product taken here inside `i64`.
pub const SCORE_BOUND: i64 = 0x4000_0000;

/// Magnitude bound on the Mirostat controller's accumulated state.
pub const STATE_BOUND: i64 = 0x4000_0000_0000;

/// `a * b` scaled back down: the fixed-point product, rounded toward
/// negative infinity.
pub open spec fn scaled(a: int, b: int) -> int {
    (a * b) / (SCALE_ONE as int)
}

/// Fixed-point multiplication: `r` is `a * b / SCALE_ONE`, rounded toward
/// negative infinity.
fn mul_scale(a: i64, b: i64) -> (r: i64)
    requires
        -0x8000_0000 <= a <= 0x8000_0000,
        -0x8000_0000 <= b <= 0x8000_0000,
    ensures
        r == scaled(a as int, b as int),
        -0x4000_0000_0000_0000 <= r <= 0x4000_0000_0000_0000,
{
    proof {
        assert(-0x4000_0000_0000_0000 <= a * b <= 0x4000_0000_0000_0000) by (nonlinear_arith)
            requires
                -0x8000_0000 <= a <= 0x8000_0000,
                -0x8000_0000 <= b <= 0x8000_0000,
        ;
    }
    let p: i64 = a * b;
    if p >= 0 {
        let q64: u64 = (p as u64) / (SCALE_ONE as u64);
        proof {
            assert((p as int) / (SCALE_ONE as int) == q64 as int) by (nonlinear_arith)
                requires
                    q64 == (p as int) / (SCALE_ONE as int),
            ;
            assert(q64 as int <= p as int) by (nonlinear_arith)
                requires
                    q64 == (p as int) / (SCALE_ONE as int),
                    0 <= p,
            ;
        }
        q64 as i64
    } else {
        let n: u64 = (-p) as u64;
        let q64: u64 = (n + (SCALE_ONE as u64 - 1)) / (SCALE_ONE as u64);
        proof {
            let sc = SCALE_ONE as int;
            assert((q64 - 1) * sc < n as int <= q64 as int * sc) by (nonlinear_arith)
                requires
                    sc == SCALE_ONE as int,
                    q64 == (n as int + (sc - 1)) / sc,
                    0 < n as int,
            ;
            assert((p as int) / sc == -(q64 as int) && q64 as int <= n as int) by (
            nonlinear_arith)
                requires
                    sc == SCALE_ONE as int,
                    p as int == -(n as int),
                    (q64 - 1) * sc < n as int <= q64 as int * sc,
                    0 < n as int,
            ;
        }
        -(q64 as i64)
    }
}

/// Index `i` holds the greatest score in `s`, and is the first index to do
/// so: every score is at most `s[i]`, and every earlier score is strictly
/// below it.
pub open spec fn is_first_max(s: Seq<i64>, i: int) -> bool {
    &&& 0 <= i < s.len()
    &&& forall|j: int| 0 <= j < s.len() ==> s[j] <= s[i]
    &&& forall|j: int| 0 <= j < i ==> s[j] < s[i]
}

/// At most one index is the first maximum: the greedy choice is a function
/// of the scores alone.  In particular, temperature-scaled sampling at a
/// temperature of exactly 0 — whose result is ensured to be a first maximum,
/// whatever the randomness source — always returns the same index as
/// [`greedy`].
pub proof fn lemma_first_max_unique(s: Seq<i64>, i: int, j: int)
    requires
        is_first_max(s, i),
        is_first_max(s, j),
    ensures
        i == j,
{
    if i < j {
        assert(s[i] < s[j]);
    }
    if j < i {
        assert(s[j] < s[i]);
    }
}

/// Deterministic sampling: the index of the maximum score, ties broken by
/// first occurrence.
pub fn greedy(logits: &Vec<i64>) -> (i: usize)
    requires
        logits@.len() > 0,
    ensures
        is_first_max(logits@, i as int),
{
    let mut best: usize = 0;
    let mut j: usize = 1;
    while j < logits.len()
        invariant
            logits@.len() > 0,
            best < j <= logits@.len(),
            forall|k: int| 0 <= k < j ==> logits@[k] <= logits@[best as int],
            forall|k: int| 0 <= k < best ==> logits@[k] < logits@[best as int],
        decreases logits@.len() - j,
    {
        if logits[j] > logits[best] {
            best = j;
        }
        j = j + 1;
    }
    best
}

/// The classifier-free-guidance blend of one positive and one negative
/// score: `scale * (p - n) + n` in fixed point.
pub open spec fn cfg_blend(scale: int, p: int, n: int) -> int {
    n + scaled(scale, p - n)
}

/// Elementwise classifier-free guidance: blends a positive and a negative
/// conditioning pass into one guided score vector.  The two vectors must
/// cover the same vocabulary: mismatched lengths yield `None`, never a
/// silent truncation.
pub fn apply_cfg(cfg_scale: i64, pos_logits: &Vec<i64>, neg_logits: &Vec<i64>) -> (r: Option<
    Vec<i64>,
>)
    requires
        -SCORE_BOUND <= cfg_scale <= SCORE_BOUND,
        forall|i: int| 0 <= i < pos_logits@.len()
            ==> -SCORE_BOUND <= #[trigger] pos_logits@[i] <= SCORE_BOUND,
        forall|i: int| 0 <= i < neg_logits@.len()
            ==> -SCORE_BOUND <= #[trigger] neg_logits@[i] <= SCORE_BOUND,
    ensures
        pos_logits@.len() != neg_logits@.len() ==> r is None,
        pos_logits@.len() == neg_logits@.len() ==> (match r {
            Some(guided) => {
                &&& guided@.len() == pos_logits@.len()
                &&& forall|i: int| 0 <= i < guided@.len() ==> #[trigger] guided@[i]
                    == cfg_blend(cfg_scale as int, pos_logits@[i] as int, neg_logits@[i] as int)
            },
            None => false,
        }),
{
    if pos_logits.len() != neg_logits.len() {
        return None;
    }
    let mut guided: Vec<i64> = Vec::new();
    let mut i: usize = 0;
    while i < pos_logits.len()
        invariant
            i <= pos_logits@.len(),
            pos_logits@.len() == neg_logits@.len(),
            -SCORE_BOUND <= cfg_scale <= SCORE_BOUND,
            forall|k: int| 0 <= k < pos_logits@.len()
                ==> -SCORE_BOUND <= #[trigger] pos_logits@[k] <= SCORE_BOUND,
            forall|k: int| 0 <= k < neg_logits@.len()
                ==> -SCORE_BOUND <= #[trigger] neg_logits@[k] <= SCORE_BOUND,
            guided@.len() == i,
            forall|k: int| 0 <= k < i ==> #[trigger] guided@[k]
                == cfg_blend(cfg_scale as int, pos_logits@[k] as int, neg_logits@[k] as int),
        decreases pos_logits@.len() - i,
    {
        let p = pos_logits[i];
        let n = neg_logits[i];
        let g = n + mul_scale(cfg_scale, p - n);
        guided.push(g);
        i = i + 1;
    }
    Some(guided)
}

/// Relies on rand::distributions::WeightedIndex over u64 weights, sampled
/// with rand::thread_rng: the draw lands on an index in range whose weight
/// is positive, and a draw is possible exactly when some weight is positive.
/// Which index comes back is up to the randomness source: nothing more is
/// assumed of it.  The bounds keep the distribution's total weight within
/// `u64`, which `WeightedIndex::new` requires.
#[verifier::external_body]
fn weighted_draw(weights: &Vec<u64>) -> (r: Option<usize>)
    requires
        weights@.len() <= 0x8000_0000,
        forall|i: int| 0 <= i < weights@.len() ==> (#[trigger] weights@[i]) <= 0x1_0000_0000,
    ensures
        r matches Some(i) ==> i < weights@.len() && weights@[i as int] > 0,
        r is None ==> forall|i: int| 0 <= i < weights@.len() ==> weights@[i] == 0,
{
    match rand::distributions::WeightedIndex::new(weights.iter().cloned()) {
        Ok(dist) => Some(rand::distributions::Distribution::sample(&dist, &mut rand::thread_rng())),
        Err(_) => None,
    }
}

/// Temperature-scaled stochastic sampling.  A temperature of exactly 0
/// degrades to the greedy choice; otherwise one index is drawn from the
/// categorical distribution the caller derived from the (temperature-scaled,
/// softmax-normalized) scores, quantized to integer weights.
#[derive(Clone, Copy, Debug)]
pub struct BasicSampler {
    pub temperature: Option<i64>,
}

impl Default for BasicSampler {
    /// The stock configuration: no temperature, so raw scores drive the
    /// draw directly.
    fn default() -> (r: Self)
        ensures
            r.temperature is None,
    {
        BasicSampler { temperature: None }
    }
}

impl BasicSampler {
    /// Samples one index from a score vector.  `weights` holds the
    /// categorical weight of each candidate, aligned with `raw_logits`; when
    /// the configured temperature is exactly 0 the weights are not consulted
    /// and the result is the greedy choice.  `None` comes back only when
    /// every weight is zero (and the temperature is not 0).
    pub fn sample(&self, raw_logits: &Vec<i64>, weights: &Vec<u64>) -> (r: Option<usize>)
        requires
            raw_logits@.len() > 0,
            weights@.len() == raw_logits@.len(),
            weights@.len() <= 0x8000_0000,
            forall|i: int| 0 <= i < weights@.len() ==> (#[trigger] weights@[i]) <= 0x1_0000_0000,
        ensures
            self.temperature == Some(0i64) ==> (match r {
                Some(i) => is_first_max(raw_logits@, i as int),
                None => false,
            }),
            r matches Some(i) ==> i < raw_logits@.len(),
            self.temperature != Some(0i64) ==> ((r is Some) <==> exists|i: int|
                0 <= i < weights@.len() && weights@[i] > 0),
            self.temperature != Some(0i64) ==> (r matches Some(i) ==> weights@[i as int] > 0),
    {
        match self.temperature {
            Some(t) if t == 0 => Some(greedy(raw_logits)),
            _ => weighted_draw(weights),
        }
    }
}

/// The default Mirostat target surprise: two pi in fixed point, a
/// conventional default rather than a numerically special value.
pub const DEFAULT_TARGET_SURPRISE: i64 = 411775;

/// `idx` ranks the candidates of `scores`: it lists each candidate index at
/// most once, covers as many positions as there are candidates, and every
/// candidate ranked at or past position `k` scores no higher than any of the
/// first `k`.
pub open spec fn is_ranking(scores: Seq<i64>, idx: Seq<usize>, k: int) -> bool {
    &&& idx.len() == scores.len()
    &&& idx.no_duplicates()
    &&& forall|p: int| 0 <= p < idx.len() ==> (#[trigger] idx[p]) < scores.len()
    &&& forall|a: int, b: int|
        0 <= a < k && k <= b < idx.len() ==> scores[(#[trigger] idx[b]) as int] <= scores[(
        #[trigger] idx[a]) as int]
}

/// Candidate `t` lies among the `k` highest-scoring candidates of `scores`,
/// under some ranking of the whole candidate set.
pub open spec fn in_top_k(scores: Seq<i64>, t: int, k: int) -> bool {
    exists|idx: Seq<usize>, j: int|
        is_ranking(scores, idx, k) && 0 <= j < k && idx[j] == t
}

/// Under some ranking, the `k` highest-scoring candidates all carry zero
/// weight: truncation left nothing to draw from.
pub open spec fn cutoff_weightless(scores: Seq<i64>, weights: Seq<u64>, k: int) -> bool {
    exists|idx: Seq<usize>|
        #[trigger] is_ranking(scores, idx, k) && forall|p: int|
            0 <= p < k ==> weights[idx[p] as int] == 0
}

/// Orders the candidate indices so that the `k` highest scores come first:
/// the returned vector ranks every candidate, with ties broken arbitrarily.
fn rank_top_k(scores: &Vec<i64>, k: usize) -> (idx: Vec<usize>)
    requires
        k <= scores@.len(),
    ensures
        is_ranking(scores@, idx@, k as int),
{
    let n = scores.len();
    let mut idx: Vec<usize> = Vec::new();
    let mut p: usize = 0;
    while p < n
        invariant
            p <= n,
            idx@.len() == p,
            forall|q: int| 0 <= q < p ==> (#[trigger] idx@[q]) == q,
        decreases n - p,
    {
        idx.push(p);
        p = p + 1;
    }
    assert(idx@.no_duplicates());
    let mut c: usize = 0;
    while c < k
        invariant
            c <= k <= n,
            n == scores@.len(),
            idx@.len() == n,
            idx@.no_duplicates(),
            forall|q: int| 0 <= q < n ==> (#[trigger] idx@[q]) < n,
            forall|a: int, b: int|
                0 <= a < c && a <= b < n ==> scores@[(#[trigger] idx@[b]) as int] <= scores@[(
                #[trigger] idx@[a]) as int],
        decreases k - c,
    {
        let mut m: usize = c;
        let mut j: usize = c + 1;
        while j < n
            invariant
                c <= m < j <= n,
                n == scores@.len(),
                idx@.len() == n,
                forall|q: int| 0 <= q < n ==> (#[trigger] idx@[q]) < n,
                forall|b: int| c <= b < j ==> scores@[(#[trigger] idx@[b]) as int] <= scores@[idx@[m as int] as int],
            decreases n - j,
        {
            if scores[idx[j]] > scores[idx[m]] {
                m = j;
            }
            j = j + 1;
        }
        let vc = idx[c];
        let vm = idx[m];
        idx.set(c, vm);
        idx.set(m, vc);
        c = c + 1;
    }
    idx
}

/// Adaptive truncated stochastic sampling with feedback: the candidate set
/// is cut to the highest-probability entries, one is drawn, and the
/// controller's running maximum-surprise estimate moves toward the target by
/// the realized surprise error.
#[derive(Clone, Copy, Debug)]
pub struct Mirostat {
    pub lr: i64,
    pub max_surprise: i64,
    pub target_surprise: i64,
    pub m: usize,
}

/// Where the controller's maximum-surprise estimate stands after observing a
/// realized surprise: the estimate moves against the error
/// `observed - target`, scaled by the learning rate, saturating at the state
/// bound.
pub open spec fn controller_step(lr: int, target: int, max: int, observed: int) -> int {
    let next = max - scaled(lr, observed - target);
    if next > STATE_BOUND {
        STATE_BOUND as int
    } else if next < -STATE_BOUND {
        -STATE_BOUND as int
    } else {
        next
    }
}

/// The truncation cutoff: one more than the estimated rank, clamped to at
/// least 1 and at most the candidate count.
pub open spec fn spec_cutoff(k_estimate: int, n_candidates: int) -> int {
    if k_estimate + 1 <= n_candidates {
        k_estimate + 1
    } else {
        n_candidates
    }
}

impl Mirostat {
    /// The controller's fields stay inside the bounds its arithmetic needs.
    pub open spec fn wf(&self) -> bool {
        &&& -SCORE_BOUND <= self.lr <= SCORE_BOUND
        &&& -SCORE_BOUND <= self.target_surprise <= SCORE_BOUND
        &&& -STATE_BOUND <= self.max_surprise <= STATE_BOUND
    }

    /// The stock controller: unit learning rate, the conventional target,
    /// an initial maximum-surprise estimate of twice the target, and a
    /// 100-candidate window for the surprise estimate.
    pub fn new() -> (r: Self)
        ensures
            r.lr == SCALE_ONE,
            r.target_surprise == DEFAULT_TARGET_SURPRISE,
            r.max_surprise == 2 * DEFAULT_TARGET_SURPRISE,
            r.m == 100,
            r.wf(),
    {
        Mirostat {
            lr: SCALE_ONE,
            target_surprise: DEFAULT_TARGET_SURPRISE,
            max_surprise: 2 * DEFAULT_TARGET_SURPRISE,
            m: 100,
        }
    }

    /// Replaces the learning rate.
    pub fn lr(self, lr: i64) -> (r: Self)
        requires
            -SCORE_BOUND <= lr <= SCORE_BOUND,
        ensures
            r.lr == lr,
            r.max_surprise == self.max_surprise,
            r.target_surprise == self.target_surprise,
            r.m == self.m,
    {
        Self { lr, ..self }
    }

    /// Replaces the target surprise, resetting the maximum-surprise estimate
    /// to twice the new target.
    pub fn target_surprise(self, target_surprise: i64) -> (r: Self)
        requires
            -SCORE_BOUND <= target_surprise <= SCORE_BOUND,
        ensures
            r.lr == self.lr,
            r.target_surprise == target_surprise,
            r.max_surprise == 2 * target_surprise,
            r.m == self.m,
    {
        Self { target_surprise, max_surprise: 2 * target_surprise, ..self }
    }

    /// The feedback step: moves the maximum-surprise estimate against the
    /// realized surprise error, saturating at the state bound.
    pub fn update(&mut self, observed_surprise: i64)
        requires
            old(self).wf(),
            -SCORE_BOUND <= observed_surprise <= SCORE_BOUND,
        ensures
            final(self).wf(),
            final(self).max_surprise == controller_step(
                old(self).lr as int,
                old(self).target_surprise as int,
                old(self).max_surprise as int,
                observed_surprise as int,
            ),
            final(self).lr == old(self).lr,
            final(self).target_surprise == old(self).target_surprise,
            final(self).m == old(self).m,
    {
        let delta = mul_scale(self.lr, observed_surprise - self.target_surprise);
        let next = self.max_surprise - delta;
        self.max_surprise = if next > STATE_BOUND {
            STATE_BOUND
        } else if next < -STATE_BOUND {
            -STATE_BOUND
        } else {
            next
        };
    }

    /// Samples one candidate: ranks the candidates, truncates to the
    /// `k_estimate`-derived cutoff, draws one of the surviving candidates by
    /// weight, and feeds the realized surprise of the drawn candidate back
    /// into the controller.  `weights` and `surprises` are aligned with
    /// `raw_logits`; the caller derives them from the softmax probabilities
    /// (weights and their base-2 information content) and the cutoff
    /// estimate from the closed-form truncation formula.
    pub fn sample(
        &mut self,
        raw_logits: &Vec<i64>,
        weights: &Vec<u64>,
        surprises: &Vec<i64>,
        k_estimate: usize,
    ) -> (r: Option<usize>)
        requires
            old(self).wf(),
            raw_logits@.len() > 0,
            weights@.len() == raw_logits@.len(),
            surprises@.len() == raw_logits@.len(),
            raw_logits@.len() <= 0x8000_0000,
            forall|i: int| 0 <= i < weights@.len() ==> (#[trigger] weights@[i]) <= 0x1_0000_0000,
            forall|i: int| 0 <= i < surprises@.len()
                ==> -SCORE_BOUND <= #[trigger] surprises@[i] <= SCORE_BOUND,
        ensures
            final(self).wf(),
            final(self).lr == old(self).lr,
            final(self).target_surprise == old(self).target_surprise,
            final(self).m == old(self).m,
            r matches Some(t) ==> t < raw_logits@.len() && weights@[t as int] > 0,
            r matches Some(t) ==> in_top_k(
                raw_logits@,
                t as int,
                spec_cutoff(k_estimate as int, raw_logits@.len() as int),
            ),
            r matches Some(t) ==> final(self).max_surprise == controller_step(
                old(self).lr as int,
                old(self).target_surprise as int,
                old(self).max_surprise as int,
                surprises@[t as int] as int,
            ),
            r is None ==> final(self).max_surprise == old(self).max_surprise,
            r is None ==> cutoff_weightless(
                raw_logits@,
                weights@,
                spec_cutoff(k_estimate as int, raw_logits@.len() as int),
            ),
            r is None ==> exists|i: int| 0 <= i < weights@.len() && #[trigger] weights@[i] == 0,
    {
        let n = raw_logits.len();
        let k = if k_estimate >= n {
            n
        } else {
            k_estimate + 1
        };
        let idx = rank_top_k(raw_logits, k);
        let mut top_weights: Vec<u64> = Vec::new();
        let mut a: usize = 0;
        while a < k
            invariant
                a <= k <= n,
                n == raw_logits@.len(),
                weights@.len() == n,
                is_ranking(raw_logits@, idx@, k as int),
                top_weights@.len() == a,
                forall|q: int| 0 <= q < a ==> (#[trigger] top_weights@[q]) == weights@[idx@[q] as int],
            decreases k - a,
        {
            top_weights.push(weights[idx[a]]);
            a = a + 1;
        }
        match weighted_draw(&top_weights) {
            Some(j) => {
                let t = idx[j];
                self.update(surprises[t]);
                proof {
                    assert(in_top_k(
                        raw_logits@,
                        t as int,
                        spec_cutoff(k_estimate as int, raw_logits@.len() as int),
                    ));
                }
                Some(t)
            },
            None => {
                proof {
                    assert(k as int == spec_cutoff(k_estimate as int, raw_logits@.len() as int));
                    assert forall|p: int| 0 <= p < k implies weights@[idx@[p] as int] == 0 by {
                        assert(top_weights@[p] == weights@[idx@[p] as int]);
                        assert(top_weights@[p] == 0);
                    }
                    assert(is_ranking(
                        raw_logits@,
                        idx@,
                        spec_cutoff(k_estimate as int, raw_logits@.len() as int),
                    ));
                    assert(cutoff_weightless(
                        raw_logits@,
                        weights@,
                        spec_cutoff(k_estimate as int, raw_logits@.len() as int),
                    ));
                    assert(weights@[idx@[0] as int] == 0);
                }
                None
            },
        }
    }
}

/// The closed set of sampling strategies, selected by a runtime flag: the
/// deterministic greedy choice, temperature-scaled stochastic sampling, and
/// the Mirostat controller — the only stateful one.
#[derive(Clone, Copy, Debug)]
pub enum Sampler {
    Greedy,
    Basic(BasicSampler),
    Mirostat(Mirostat),
}

impl Sampler {
    /// The Mirostat controller's invariant, where that strategy is
    /// selected; the stateless strategies carry nothing to maintain.
    pub open spec fn wf(&self) -> bool {
        match self {
            Sampler::Mirostat(m) => m.wf(),
            _ => true,
        }
    }

    /// Samples one index from a score vector under the selected strategy.
    /// `weights` and `surprises` are the caller's quantized per-candidate
    /// categorical weights and information contents, and `k_estimate` the
    /// Mirostat truncation estimate; the strategies that decide on the raw
    /// scores alone ignore them.
    pub fn sample(
        &mut self,
        raw_logits: &Vec<i64>,
        weights: &Vec<u64>,
        surprises: &Vec<i64>,
        k_estimate: usize,
    ) -> (r: Option<usize>)
        requires
            old(self).wf(),
            raw_logits@.len() > 0,
            weights@.len() == raw_logits@.len(),
            surprises@.len() == raw_logits@.len(),
            raw_logits@.len() <= 0x8000_0000,
            forall|i: int| 0 <= i < weights@.len() ==> (#[trigger] weights@[i]) <= 0x1_0000_0000,
            forall|i: int| 0 <= i < surprises@.len()
                ==> -SCORE_BOUND <= #[trigger] surprises@[i] <= SCORE_BOUND,
        ensures
            final(self).wf(),
            r matches Some(i) ==> i < raw_logits@.len(),
            *old(self) is Greedy ==> (match r {
                Some(i) => is_first_max(raw_logits@, i as int),
                None => false,
            }) && *final(self) == *old(self),
            (*old(self) matches Sampler::Basic(b) && b.temperature == Some(0i64)) ==> (match r {
                Some(i) => is_first_max(raw_logits@, i as int),
                None => false,
            }),
            *old(self) matches Sampler::Basic(b) ==> *final(self) == *old(self),
            (*old(self) matches Sampler::Basic(b) && b.temperature != Some(0i64)) ==> ((r is Some)
                <==> exists|i: int| 0 <= i < weights@.len() && weights@[i] > 0),
            (*old(self) matches Sampler::Basic(b) && b.temperature != Some(0i64)) ==> (r matches
                Some(i) ==> weights@[i as int] > 0),
            *old(self) matches Sampler::Mirostat(m) ==> (r matches Some(t) ==> in_top_k(
                raw_logits@,
                t as int,
                spec_cutoff(k_estimate as int, raw_logits@.len() as int),
            ) && weights@[t as int] > 0),
            *old(self) is Mirostat ==> (r is None ==> cutoff_weightless(
                raw_logits@,
                weights@,
                spec_cutoff(k_estimate as int, raw_logits@.len() as int),
            )),
            *old(self) is Mirostat ==> (r is None ==> exists|i: int|
                0 <= i < weights@.len() && #[trigger] weights@[i] == 0),
    {
        match self {
            Sampler::Greedy => Some(greedy(raw_logits)),
            Sampler::Basic(b) => b.sample(raw_logits, weights),
            Sampler::Mirostat(m) => m.sample(raw_logits, weights, surprises, k_estimate),
        }
    }
}

impl Default for Mirostat {
    /// The stock controller, as [`Mirostat::new`] builds it.
    fn default() -> (r: Self)
        ensures
            r.lr == SCALE_ONE,
            r.target_surprise == DEFAULT_TARGET_SURPRISE,
            r.max_surprise == 2 * DEFAULT_TARGET_SURPRISE,
            r.m == 100,
            r.wf(),
    {
        Mirostat::new()
    }
}

/// At a guidance scale of exactly 1, the blend is the identity on the
/// positive score: guidance is a no-op and the negative pass is redundant.
pub proof fn lemma_cfg_identity(p: int, n: int)
    ensures
        cfg_blend(SCALE_ONE as int, p, n) == p,
{
    assert(scaled(SCALE_ONE as int, p - n) == p - n) by (nonlinear_arith);
}

/// At a guidance scale of exactly 1, the guided vector equals the positive
/// vector elementwise, for all positive and negative vectors of equal
/// length.
pub proof fn lemma_cfg_identity_vector(pos: Seq<i64>, neg: Seq<i64>)
    requires
        pos.len() == neg.len(),
    ensures
        forall|i: int| 0 <= i < pos.len()
            ==> cfg_blend(SCALE_ONE as int, pos[i] as int, neg[i] as int) == pos[i],
{
    assert forall|i: int| 0 <= i < pos.len() implies cfg_blend(
        SCALE_ONE as int,
        pos[i] as int,
        neg[i] as int,
    ) == pos[i] by {
        lemma_cfg_identity(pos[i] as int, neg[i] as int);
    }
}

} // verus!
