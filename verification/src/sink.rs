//! The output sink boundary: any destination accepting sequential text
//! chunks and a terminal flush — a terminal stream, an in-memory buffer, a
//! network channel.

use vstd::prelude::*;

verus! {

/// The sink failed to accept a write or a flush.
#[derive(Clone, Copy, Debug, PartialEq, Eq, Structural)]
pub struct SinkError;

/// A destination for sequential text chunks. `content` is everything the
/// sink has been handed so far (delivered or buffered): a successful write
/// appends exactly its fragment, a failed write keeps what was already
/// delivered — partial output is never retracted — and a flush delivers
/// buffered text without changing the content.
pub trait OutputSink: Sized {
    /// Everything written to this sink so far.
    spec fn content(&self) -> Seq<char>;

    fn write(&mut self, frag: &Vec<char>) -> (r: Result<(), SinkError>)
        ensures
            r is Ok ==> final(self).content() == old(self).content() + frag@,
            r is Err ==> old(self).content().is_prefix_of(final(self).content()),
    ;

    fn flush(&mut self) -> (r: Result<(), SinkError>)
        ensures
            final(self).content() == old(self).content(),
    ;
}

/// An in-memory sink: collects everything written into one buffer.
pub struct VecSink {
    buf: Vec<char>,
}

impl VecSink {
    pub fn new() -> (r: VecSink)
        ensures
            r.content() == Seq::<char>::empty(),
    {
        let r = VecSink { buf: Vec::new() };
        proof {
            assert(r.content() =~= Seq::<char>::empty());
        }
        r
    }

    /// The collected text.
    pub fn chars(&self) -> (r: &Vec<char>)
        ensures
            r@ == self.content(),
    {
        &self.buf
    }

    /// Consumes the sink and returns the collected text.
    pub fn into_chars(self) -> (r: Vec<char>)
        ensures
            r@ == self.content(),
    {
        self.buf
    }
}

/// A sink that accepts nothing: every write and every flush fails, and its
/// content stays empty.
pub struct ClosedSink {}

impl OutputSink for ClosedSink {
    closed spec fn content(&self) -> Seq<char> {
        Seq::empty()
    }

    fn write(&mut self, frag: &Vec<char>) -> (r: Result<(), SinkError>)
        ensures
            r is Ok ==> final(self).content() == old(self).content() + frag@,
            r is Err ==> old(self).content().is_prefix_of(final(self).content()),
    {
        proof {
            assert(self.content().is_prefix_of(self.content()));
        }
        Err(SinkError)
    }

    fn flush(&mut self) -> (r: Result<(), SinkError>)
        ensures
            final(self).content() == old(self).content(),
    {
        Err(SinkError)
    }
}

impl OutputSink for VecSink {
    closed spec fn content(&self) -> Seq<char> {
        self.buf@
    }

    fn write(&mut self, frag: &Vec<char>) -> (r: Result<(), SinkError>)
        ensures
            r is Ok ==> final(self).content() == old(self).content() + frag@,
            r is Err ==> old(self).content().is_prefix_of(final(self).content()),
    {
        let mut i: usize = 0;
        while i < frag.len()
            invariant
                i <= frag@.len(),
                self.buf@ == old(self).buf@ + frag@.take(i as int),
            decreases frag@.len() - i,
        {
            self.buf.push(frag[i]);
            proof {
                assert(self.buf@ =~= old(self).buf@ + frag@.take(i + 1));
            }
            i = i + 1;
        }
        proof {
            assert(old(self).buf@ + frag@.take(frag@.len() as int) =~= old(self).buf@ + frag@);
        }
        Ok(())
    }

    fn flush(&mut self) -> (r: Result<(), SinkError>)
        ensures
            final(self).content() == old(self).content(),
    {
        Ok(())
    }
}

} // verus!
