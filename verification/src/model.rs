//! The sequence-model capability: one forward pass over a window of token
//! ids produces one unnormalized score per vocabulary entry for the next
//! token. Model variants with an internal cache addressed by absolute
//! position receive the window's position offset on every call.

use vstd::prelude::*;

verus! {

/// The model's forward pass failed.
#[derive(Clone, Copy, Debug, PartialEq, Eq, Structural)]
pub struct ModelError;

/// A next-token score producer, polymorphic over model variants, with hidden
/// internal state. Its behaviour is specified functionally: what scores a
/// state produces for a window at a position, and which state one forward
/// pass leaves behind — so a whole run is a function of the initial state.
pub trait SequenceModel: Sized {
    /// The scores this model state returns for `window` at position `pos`.
    spec fn scores_of(&self, window: Seq<u32>, pos: int) -> Seq<i64>;

    /// The state the model is in after that forward pass.
    spec fn stepped(&self, window: Seq<u32>, pos: int) -> Self;

    /// One forward pass. The first call primes the internal state, so the
    /// window is never empty.
    fn forward(&mut self, window: &Vec<u32>, pos: usize) -> (r: Result<Vec<i64>, ModelError>)
        requires
            window@.len() >= 1,
        ensures
            r matches Ok(s) ==> s@ == old(self).scores_of(window@, pos as int) && *final(self)
                == old(self).stepped(window@, pos as int),
    ;
}

/// A stateless model that returns the same scores at every step, whatever
/// the window and position.
pub struct FixedScoreModel {
    pub scores: Vec<i64>,
}

impl SequenceModel for FixedScoreModel {
    open spec fn scores_of(&self, window: Seq<u32>, pos: int) -> Seq<i64> {
        self.scores@
    }

    open spec fn stepped(&self, window: Seq<u32>, pos: int) -> Self {
        FixedScoreModel { scores: self.scores }
    }

    fn forward(&mut self, window: &Vec<u32>, pos: usize) -> (r: Result<Vec<i64>, ModelError>) {
        Ok(self.scores.clone())
    }
}

/// A model whose forward pass always fails, whatever the window and the
/// position: the degenerate end of the model boundary.
pub struct FailingModel {}

impl SequenceModel for FailingModel {
    open spec fn scores_of(&self, window: Seq<u32>, pos: int) -> Seq<i64> {
        Seq::empty()
    }

    open spec fn stepped(&self, window: Seq<u32>, pos: int) -> Self {
        FailingModel {  }
    }

    fn forward(&mut self, window: &Vec<u32>, pos: usize) -> (r: Result<Vec<i64>, ModelError>) {
        Err(ModelError)
    }
}

/// A position-addressed model: the score vector has a single maximum at the
/// index equal to the position offset it was handed (all zeros when the
/// offset lies outside the vocabulary). The offsets a run feeds the model
/// thereby become visible in the tokens it generates.
pub struct PositionProbeModel {
    pub vocab: usize,
}

impl SequenceModel for PositionProbeModel {
    open spec fn scores_of(&self, window: Seq<u32>, pos: int) -> Seq<i64> {
        Seq::new(
            self.vocab as nat,
            |i: int|
                if i == pos {
                    1i64
                } else {
                    0i64
                },
        )
    }

    open spec fn stepped(&self, window: Seq<u32>, pos: int) -> Self {
        PositionProbeModel { vocab: self.vocab }
    }

    fn forward(&mut self, window: &Vec<u32>, pos: usize) -> (r: Result<Vec<i64>, ModelError>) {
        let mut s: Vec<i64> = Vec::new();
        let mut i: usize = 0;
        while i < self.vocab
            invariant
                i <= self.vocab,
                s@.len() == i,
                forall|k: int|
                    0 <= k < i ==> s@[k] == (if k == pos as int {
                        1i64
                    } else {
                        0i64
                    }),
            decreases self.vocab - i,
        {
            if i == pos {
                s.push(1);
            } else {
                s.push(0);
            }
            i = i + 1;
        }
        proof {
            assert(s@ =~= self.scores_of(window@, pos as int));
        }
        Ok(s)
    }
}

} // verus!
