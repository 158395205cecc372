//! The sampling policy: turns one score vector into one chosen token id,
//! deterministically given the sampler's state (which embodies the seed and
//! any temperature or nucleus configuration).

use vstd::prelude::*;

verus! {

/// A deterministic-given-state sampling policy. Both the chosen token and
/// the successor state are functions of the current state and the scores, so
/// re-running with an equal initial state reproduces the same choices; the
/// internal cursor advances exactly once per call.
pub trait LogitsSampler: Sized {
    /// The token this sampler state picks from `scores`.
    spec fn choice(&self, scores: Seq<i64>) -> u32;

    /// The state the sampler is in after that pick.
    spec fn advanced(&self, scores: Seq<i64>) -> Self;

    fn sample(&mut self, scores: &Vec<i64>) -> (t: u32)
        ensures
            t == old(self).choice(scores@),
            *final(self) == old(self).advanced(scores@),
    ;
}

/// The index of the first maximal score; `0` for an empty vector.
pub open spec fn arg_max_idx(s: Seq<i64>) -> int
    decreases s.len(),
{
    if s.len() <= 1 {
        0
    } else {
        let r = arg_max_idx(s.drop_last());
        if s.last() > s[r] {
            s.len() - 1
        } else {
            r
        }
    }
}

/// Law: `arg_max_idx` names the first index attaining the maximum — nothing
/// is larger, and everything before it is strictly smaller.
pub proof fn lemma_arg_max_is_first_max(s: Seq<i64>)
    requires
        s.len() > 0,
    ensures
        0 <= arg_max_idx(s) < s.len(),
        forall|k: int| 0 <= k < s.len() ==> #[trigger] s[k] <= s[arg_max_idx(s)],
        forall|k: int| 0 <= k < arg_max_idx(s) ==> #[trigger] s[k] < s[arg_max_idx(s)],
    decreases s.len(),
{
    if s.len() > 1 {
        lemma_arg_max_is_first_max(s.drop_last());
        assert(forall|k: int| 0 <= k < s.len() - 1 ==> s[k] == s.drop_last()[k]);
    }
}

/// Deterministic arg-max selection: the policy in force when no temperature
/// is configured. Stateless, so every call picks the same way.
pub struct ArgMaxSampler {}

impl LogitsSampler for ArgMaxSampler {
    /// The first index attaining the maximal score, as a token id; `0` when
    /// the scores are empty or the index exceeds the token-id range.
    open spec fn choice(&self, scores: Seq<i64>) -> u32 {
        if scores.len() == 0 {
            0
        } else {
            let i = arg_max_idx(scores);
            if i <= u32::MAX {
                i as u32
            } else {
                0
            }
        }
    }

    open spec fn advanced(&self, scores: Seq<i64>) -> Self {
        ArgMaxSampler {}
    }

    fn sample(&mut self, scores: &Vec<i64>) -> (t: u32)
        ensures
            t == old(self).choice(scores@),
            *final(self) == old(self).advanced(scores@),
    {
        if scores.len() == 0 {
            return 0;
        }
        let mut best: usize = 0;
        let mut i: usize = 1;
        while i < scores.len()
            invariant
                1 <= i <= scores@.len(),
                0 <= best < i,
                best == arg_max_idx(scores@.take(i as int)),
            decreases scores@.len() - i,
        {
            proof {
                assert(scores@.take(i + 1).drop_last() =~= scores@.take(i as int));
                assert(scores@.take(i + 1).last() == scores@[i as int]);
            }
            if scores[i] > scores[best] {
                best = i;
            }
            i = i + 1;
        }
        proof {
            assert(scores@.take(scores@.len() as int) =~= scores@);
        }
        if best <= u32::MAX as usize {
            best as u32
        } else {
            0
        }
    }
}

} // verus!
