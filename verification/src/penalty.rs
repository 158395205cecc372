//! Repetition penalty: a pure transform over a score vector that scales the
//! score of every token present in a trailing window of the history.
//!
//! The penalty factor is a positive rational `factor_num / factor_den`.
//! Following the standard repetition-penalty convention, a non-negative score
//! is divided by the factor and a negative score is multiplied by it; the
//! result saturates at the `i64` range. A factor equal to one is the
//! identity transform.

use vstd::prelude::*;
use vstd::arithmetic::div_mod::lemma_div_multiples_vanish;
use vstd::arithmetic::mul::{lemma_mul_is_commutative, lemma_mul_upper_bound};

verus! {

/// Configuration of the repetition penalty: a positive rational factor and
/// the length of the trailing history window it applies to.
#[derive(Clone, Copy)]
pub struct PenaltyConfig {
    pub factor_num: u64,
    pub factor_den: u64,
    pub last_n: usize,
}

impl PenaltyConfig {
    /// The factor must be a positive rational.
    pub open spec fn wf(&self) -> bool {
        self.factor_num >= 1 && self.factor_den >= 1
    }

    /// A factor of one leaves every score unchanged.
    pub open spec fn is_identity(&self) -> bool {
        self.factor_num == self.factor_den
    }

    pub fn new(factor_num: u64, factor_den: u64, last_n: usize) -> (r: PenaltyConfig)
        requires
            factor_num >= 1,
            factor_den >= 1,
        ensures
            r == (PenaltyConfig { factor_num, factor_den, last_n }),
            r.wf(),
    {
        PenaltyConfig { factor_num, factor_den, last_n }
    }
}

/// One penalized score: a non-negative score is divided by the factor
/// `num / den`, a negative one is multiplied by it; the result saturates at
/// the `i64` range.
pub open spec fn penalize_score(s: int, num: int, den: int) -> int {
    if s >= 0 {
        let q = s * den / num;
        if q > i64::MAX as int {
            i64::MAX as int
        } else {
            q
        }
    } else {
        let q = (-s) * num / den;
        if q >= -(i64::MIN as int) {
            i64::MIN as int
        } else {
            -q
        }
    }
}

/// True when some entry of `window` names score index `i`.
pub open spec fn window_hits(window: Seq<u32>, i: int) -> bool {
    exists|j: int| 0 <= j < window.len() && window[j] as int == i
}

/// The whole penalized score vector: every index present in `window` is
/// penalized once, every other index is untouched.
pub open spec fn penalized(scores: Seq<i64>, window: Seq<u32>, num: int, den: int) -> Seq<i64> {
    Seq::new(
        scores.len(),
        |i: int|
            if window_hits(window, i) {
                penalize_score(scores[i] as int, num, den) as i64
            } else {
                scores[i]
            },
    )
}

/// The trailing `last_n` tokens of `hist`, or all of it when it is shorter.
pub open spec fn penalty_window(hist: Seq<u32>, last_n: int) -> Seq<u32> {
    if hist.len() <= last_n {
        hist
    } else {
        hist.skip(hist.len() - last_n)
    }
}

/// Law: a penalty factor of one is the identity transform, whatever the
/// scores and the window.
pub proof fn lemma_penalized_identity(scores: Seq<i64>, window: Seq<u32>, f: int)
    requires
        f >= 1,
    ensures
        penalized(scores, window, f, f) == scores,
{
    assert forall|i: int| 0 <= i < scores.len() implies penalized(scores, window, f, f)[i]
        == scores[i] by {
        let s = scores[i] as int;
        if window_hits(window, i) {
            if s >= 0 {
                lemma_div_multiples_vanish(s, f);
                lemma_mul_is_commutative(f, s);
                assert(s * f / f == s);
            } else {
                lemma_div_multiples_vanish(-s, f);
                lemma_mul_is_commutative(f, -s);
                assert((-s) * f / f == -s);
            }
        }
    }
    assert(penalized(scores, window, f, f) =~= scores);
}

fn penalize_one(s: i64, num: u64, den: u64) -> (r: i64)
    requires
        num >= 1,
        den >= 1,
    ensures
        r as int == penalize_score(s as int, num as int, den as int),
{
    if s >= 0 {
        proof {
            lemma_mul_upper_bound(s as int, i64::MAX as int, den as int, u64::MAX as int);
        }
        let prod: u128 = (s as u128) * (den as u128);
        let q: u128 = prod / (num as u128);
        if q > i64::MAX as u128 {
            i64::MAX
        } else {
            q as i64
        }
    } else {
        let mag: i128 = -(s as i128);
        proof {
            lemma_mul_upper_bound(mag as int, -(i64::MIN as int), num as int, u64::MAX as int);
        }
        let prod: u128 = (mag as u128) * (num as u128);
        let q: u128 = prod / (den as u128);
        if q >= 9223372036854775808u128 {
            i64::MIN
        } else {
            let qi: i64 = q as i64;
            -qi
        }
    }
}

fn contains_token(window: &Vec<u32>, i: usize) -> (r: bool)
    ensures
        r == window_hits(window@, i as int),
{
    let mut j: usize = 0;
    while j < window.len()
        invariant
            j <= window@.len(),
            forall|k: int| 0 <= k < j ==> window@[k] as int != i as int,
        decreases window@.len() - j,
    {
        if window[j] as usize == i {
            return true;
        }
        j = j + 1;
    }
    false
}

/// Applies the repetition penalty to `scores`: every score index present in
/// `window` is penalized once, the rest pass through unchanged. With a
/// factor of one the result equals the input.
pub fn apply_repeat_penalty(scores: &Vec<i64>, window: &Vec<u32>, cfg: &PenaltyConfig) -> (r: Vec<
    i64,
>)
    requires
        cfg.wf(),
    ensures
        r@ == penalized(scores@, window@, cfg.factor_num as int, cfg.factor_den as int),
        cfg.is_identity() ==> r@ == scores@,
{
    let ghost pspec = penalized(scores@, window@, cfg.factor_num as int, cfg.factor_den as int);
    let mut out: Vec<i64> = Vec::new();
    let mut i: usize = 0;
    while i < scores.len()
        invariant
            i <= scores@.len(),
            out@.len() == i,
            cfg.wf(),
            pspec == penalized(scores@, window@, cfg.factor_num as int, cfg.factor_den as int),
            forall|k: int| 0 <= k < i ==> out@[k] == pspec[k],
        decreases scores@.len() - i,
    {
        let v: i64 = if contains_token(window, i) {
            penalize_one(scores[i], cfg.factor_num, cfg.factor_den)
        } else {
            scores[i]
        };
        out.push(v);
        i = i + 1;
    }
    proof {
        assert(out@ =~= pspec);
        if cfg.is_identity() {
            lemma_penalized_identity(scores@, window@, cfg.factor_num as int);
        }
    }
    out
}

} // verus!
