//! A streaming detokenizer: converts a growing token sequence into text,
//! emitting each character exactly once even though the codec's decode is
//! context-dependent.
//!
//! The stream keeps the full token history and two cursors. `prev_index ..
//! current_index` spans the tokens whose decoded text has already been
//! emitted in full; tokens after `current_index` are pending. On each new
//! token the stream re-decodes the pending span and emits the new suffix only
//! once it is longer than before and ends in an alphanumeric character — the
//! heuristic marking a safely completed unit.

use vstd::prelude::*;
use crate::codec::{Codec, DecodeError, codec_additive, lemma_additive_empty, lemma_additive_split};
use crate::vecs::vec_range;

verus! {

/// Whether a character is alphanumeric, as `char::is_alphanumeric` decides it.
pub uninterp spec fn is_alnum_char(c: char) -> bool;

/// Relies on char::is_alphanumeric: whether a character counts as
/// alphanumeric depends on the character alone.
#[verifier::external_body]
fn char_is_alphanumeric(c: char) -> (r: bool)
    ensures
        r == is_alnum_char(c),
{
    c.is_alphanumeric()
}

/// The abstract state of a [`TokenOutputStream`]: its token history, the two
/// cursors, and everything it has emitted so far.
pub struct StreamView {
    pub toks: Seq<u32>,
    pub prev: int,
    pub cur: int,
    pub emitted: Seq<char>,
}

/// The state of a freshly created or cleared stream.
pub open spec fn empty_stream_view() -> StreamView {
    StreamView { toks: Seq::empty(), prev: 0, cur: 0, emitted: Seq::empty() }
}

/// Stream well-formedness: the cursors are ordered and in range, and — for an
/// additive codec — the emitted text is exactly the decode of the stable
/// prefix `[0, cur)` of the history.
pub open spec fn stream_wf<C: Codec>(c: C, v: StreamView) -> bool {
    &&& 0 <= v.prev <= v.cur <= v.toks.len()
    &&& (codec_additive(c) ==> v.emitted == c.decode_spec(v.toks.take(v.cur)))
}

/// The transition [`TokenOutputStream::next_token`] makes: the new stream
/// state and the fragment it returns (empty when nothing is emitted).
pub open spec fn stream_next<C: Codec>(c: C, v: StreamView, t: u32) -> (StreamView, Seq<char>) {
    let toks2 = v.toks.push(t);
    let prev_text = if v.toks.len() == 0 {
        Seq::<char>::empty()
    } else {
        c.decode_spec(toks2.subrange(v.prev, v.cur))
    };
    let text = c.decode_spec(toks2.subrange(v.prev, toks2.len() as int));
    if text.len() > prev_text.len() && is_alnum_char(text.last()) {
        let frag = text.skip(prev_text.len() as int);
        (
            StreamView {
                toks: toks2,
                prev: v.cur,
                cur: toks2.len() as int,
                emitted: v.emitted + frag,
            },
            frag,
        )
    } else {
        (StreamView { toks: toks2, prev: v.prev, cur: v.cur, emitted: v.emitted }, Seq::<
            char,
        >::empty())
    }
}

/// The end-of-stream remainder [`TokenOutputStream::decode_rest`] returns:
/// whatever the pending span decodes to beyond the already-emitted text.
pub open spec fn stream_remainder<C: Codec>(c: C, v: StreamView) -> Seq<char> {
    if v.toks.len() == 0 {
        Seq::empty()
    } else {
        let prev_text = c.decode_spec(v.toks.subrange(v.prev, v.cur));
        let text = c.decode_spec(v.toks.subrange(v.prev, v.toks.len() as int));
        if text.len() > prev_text.len() {
            text.skip(prev_text.len() as int)
        } else {
            Seq::empty()
        }
    }
}

/// A wrapper around a codec that returns decoded text to the caller in a
/// streaming way rather than all at once after the full decode.
pub struct TokenOutputStream<C: Codec> {
    codec: C,
    tokens: Vec<u32>,
    prev_index: usize,
    current_index: usize,
    emitted: Ghost<Seq<char>>,
}

impl<C: Codec> View for TokenOutputStream<C> {
    type V = StreamView;

    closed spec fn view(&self) -> StreamView {
        StreamView {
            toks: self.tokens@,
            prev: self.prev_index as int,
            cur: self.current_index as int,
            emitted: self.emitted@,
        }
    }
}

impl<C: Codec> TokenOutputStream<C> {
    /// The codec this stream decodes with.
    pub closed spec fn codec(&self) -> C {
        self.codec
    }

    pub open spec fn wf(&self) -> bool {
        stream_wf(self.codec(), self@)
    }

    /// Creates an empty stream over the given codec.
    pub fn new(codec: C) -> (r: TokenOutputStream<C>)
        ensures
            r.codec() == codec,
            r@ == empty_stream_view(),
            r.wf(),
    {
        let r = TokenOutputStream {
            codec,
            tokens: Vec::new(),
            prev_index: 0,
            current_index: 0,
            emitted: Ghost(Seq::empty()),
        };
        proof {
            if codec_additive(r.codec) {
                lemma_additive_empty(r.codec);
            }
            assert(r@.toks.take(0) =~= Seq::<u32>::empty());
            assert(r@ =~= empty_stream_view());
        }
        r
    }

    /// Consumes the stream and returns the underlying codec.
    pub fn into_inner(self) -> (r: C)
        ensures
            r == self.codec(),
    {
        self.codec
    }

    /// Returns a reference to the underlying codec.
    pub fn tokenizer(&self) -> (r: &C)
        ensures
            *r == self.codec(),
    {
        &self.codec
    }

    /// Looks up the token id for a literal's text in the vocabulary.
    pub fn get_token(&self, text: &Vec<char>) -> (r: Option<u32>)
        ensures
            r == self.codec().token_of(text@),
    {
        self.codec.lookup(text)
    }

    /// Decodes the whole token history at once.
    pub fn decode_all(&self) -> (r: Result<Vec<char>, DecodeError>)
        ensures
            r matches Ok(text) ==> text@ == self.codec().decode_spec(self@.toks),
    {
        self.codec.decode(&self.tokens)
    }

    /// Resets the stream for reuse without reconstruction.
    pub fn clear(&mut self)
        ensures
            final(self).codec() == old(self).codec(),
            final(self)@ == empty_stream_view(),
            final(self).wf(),
    {
        self.tokens = Vec::new();
        self.prev_index = 0;
        self.current_index = 0;
        proof {
            if codec_additive(self.codec) {
                lemma_additive_empty(self.codec);
            }
            assert(empty_stream_view().toks.take(0) =~= Seq::<u32>::empty());
        }
        self.emitted = Ghost(Seq::empty());
        proof {
            assert(final(self)@ =~= empty_stream_view());
        }
    }

    /// Appends `token` to the history, re-decodes the pending span, and
    /// returns the newly stabilized text, if any. The fragment is exactly
    /// what [`stream_next`] names, and everything emitted grows by exactly
    /// that fragment: no text is ever repeated. On a decode failure the
    /// token stays recorded and the cursors and emitted text are unchanged.
    pub fn next_token(&mut self, token: u32) -> (r: Result<Option<Vec<char>>, DecodeError>)
        requires
            old(self).wf(),
        ensures
            final(self).wf(),
            final(self).codec() == old(self).codec(),
            final(self)@.toks == old(self)@.toks.push(token),
            match r {
                Ok(f) => {
                    let (v2, frag) = stream_next(old(self).codec(), old(self)@, token);
                    &&& final(self)@ == v2
                    &&& (match f {
                        Some(text) => text@ == frag && frag.len() > 0,
                        None => frag.len() == 0,
                    })
                },
                Err(_) => final(self)@.prev == old(self)@.prev && final(self)@.cur == old(
                    self,
                )@.cur && final(self)@.emitted == old(self)@.emitted,
            },
    {
        let ghost v0 = self@;
        let ghost c = self.codec;
        let was_empty = self.tokens.len() == 0;
        self.tokens.push(token);
        let ghost toks2 = self.tokens@;
        proof {
            assert(toks2.take(v0.cur) =~= v0.toks.take(v0.cur));
        }
        let prev_text: Vec<char> = if was_empty {
            Vec::new()
        } else {
            let sub = vec_range(&self.tokens, self.prev_index, self.current_index);
            match self.codec.decode(&sub) {
                Ok(t) => t,
                Err(e) => {
                    return Err(e);
                },
            }
        };
        let rest = vec_range(&self.tokens, self.prev_index, self.tokens.len());
        let text: Vec<char> = match self.codec.decode(&rest) {
            Ok(t) => t,
            Err(e) => {
                return Err(e);
            },
        };
        proof {
            if codec_additive(c) {
                lemma_additive_empty(c);
                lemma_additive_split(c, toks2, v0.prev, v0.cur, toks2.len() as int);
                if v0.toks.len() == 0 {
                    assert(toks2.subrange(0, 0) =~= Seq::<u32>::empty());
                }
            }
        }
        if text.len() > prev_text.len() {
            let last_c: char = text[text.len() - 1];
            if char_is_alphanumeric(last_c) {
                let frag = vec_range(&text, prev_text.len(), text.len());
                self.prev_index = self.current_index;
                self.current_index = self.tokens.len();
                proof {
                    assert(frag@ =~= text@.skip(prev_text@.len() as int));
                    if codec_additive(c) {
                        lemma_additive_split(c, toks2, 0, v0.cur, toks2.len() as int);
                        assert(toks2.take(toks2.len() as int) =~= toks2.subrange(
                            0,
                            toks2.len() as int,
                        ));
                        assert(toks2.take(v0.cur) =~= toks2.subrange(0, v0.cur));
                        assert((c.decode_spec(toks2.subrange(v0.prev, v0.cur)) + c.decode_spec(
                            toks2.subrange(v0.cur, toks2.len() as int),
                        )).skip(prev_text@.len() as int) =~= c.decode_spec(
                            toks2.subrange(v0.cur, toks2.len() as int),
                        ));
                    }
                }
                self.emitted = Ghost(self.emitted@ + frag@);
                proof {
                    assert(self@ == stream_next(c, v0, token).0);
                }
                return Ok(Some(frag));
            }
        }
        proof {
            assert(self@ == stream_next(c, v0, token).0);
        }
        Ok(None)
    }

    /// Decodes the pending span once more and returns whatever exceeds the
    /// already-emitted text: the end-of-stream flush for a trailing unit the
    /// heuristic was still withholding. The stream itself is unchanged.
    pub fn decode_rest(&self) -> (r: Result<Option<Vec<char>>, DecodeError>)
        requires
            self.wf(),
        ensures
            match r {
                Ok(f) => (match f {
                    Some(text) => text@ == stream_remainder(self.codec(), self@) && text@.len()
                        > 0,
                    None => stream_remainder(self.codec(), self@) == Seq::<char>::empty(),
                }),
                Err(_) => true,
            },
    {
        if self.tokens.len() == 0 {
            return Ok(None);
        }
        let sub = vec_range(&self.tokens, self.prev_index, self.current_index);
        let prev_text: Vec<char> = match self.codec.decode(&sub) {
            Ok(t) => t,
            Err(e) => {
                return Err(e);
            },
        };
        let rest = vec_range(&self.tokens, self.prev_index, self.tokens.len());
        let text: Vec<char> = match self.codec.decode(&rest) {
            Ok(t) => t,
            Err(e) => {
                return Err(e);
            },
        };
        if text.len() > prev_text.len() {
            let frag = vec_range(&text, prev_text.len(), text.len());
            proof {
                assert(frag@ =~= text@.skip(prev_text@.len() as int));
            }
            Ok(Some(frag))
        } else {
            Ok(None)
        }
    }
}

/// Law: everything a stream has emitted, followed by its end-of-stream
/// remainder, is exactly the decode of its full token history — for an
/// additive codec no character is emitted twice and none is lost.
pub proof fn lemma_stream_accounting<C: Codec>(c: C, v: StreamView)
    requires
        stream_wf(c, v),
        codec_additive(c),
    ensures
        v.emitted + stream_remainder(c, v) == c.decode_spec(v.toks),
{
    if v.toks.len() == 0 {
        lemma_additive_empty(c);
        assert(v.toks.take(v.cur) =~= Seq::<u32>::empty());
        assert(v.toks =~= Seq::<u32>::empty());
        assert(v.emitted + stream_remainder(c, v) =~= c.decode_spec(v.toks));
    } else {
        let n = v.toks.len() as int;
        lemma_additive_split(c, v.toks, v.prev, v.cur, n);
        lemma_additive_split(c, v.toks, 0, v.cur, n);
        assert(v.toks.take(v.cur) =~= v.toks.subrange(0, v.cur));
        assert(v.toks.subrange(0, n) =~= v.toks);
        let prev_text = c.decode_spec(v.toks.subrange(v.prev, v.cur));
        let tail = c.decode_spec(v.toks.subrange(v.cur, n));
        let text = c.decode_spec(v.toks.subrange(v.prev, n));
        assert(text == prev_text + tail);
        if text.len() > prev_text.len() {
            assert((prev_text + tail).skip(prev_text.len() as int) =~= tail);
            assert(v.emitted + stream_remainder(c, v) == c.decode_spec(v.toks.subrange(0, v.cur))
                + tail);
        } else {
            assert(tail.len() == 0);
            assert(tail =~= Seq::<char>::empty());
            assert(v.emitted + stream_remainder(c, v) =~= v.emitted + tail);
        }
    }
}

} // verus!
