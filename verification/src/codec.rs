//! The vocabulary codec boundary: a decoder from token ids to text and a
//! lookup from a literal's text to its token id.
//!
//! The decoder is context-dependent in general: what a token renders to may
//! depend on its neighbours. `codec_additive` names the codecs whose decode
//! distributes over concatenation; under that assumption the streaming
//! detokenizer's accounting is exact. [`TableCodec`] is a verified additive
//! codec that renders each token from a fixed table.

use vstd::prelude::*;

verus! {

/// The codec failed to render a token span.
#[derive(Clone, Copy, Debug, PartialEq, Eq, Structural)]
pub struct DecodeError;

/// Encode/decode capability of a vocabulary, specified by two spec
/// functions: the text a token sequence decodes to, and the token id a
/// literal's text maps to.
pub trait Codec: Sized {
    /// The text that `toks` decodes to, when decoding succeeds.
    spec fn decode_spec(&self, toks: Seq<u32>) -> Seq<char>;

    /// The token id the vocabulary assigns to exactly this text, if any.
    spec fn token_of(&self, text: Seq<char>) -> Option<u32>;

    fn decode(&self, toks: &Vec<u32>) -> (r: Result<Vec<char>, DecodeError>)
        ensures
            r matches Ok(text) ==> text@ == self.decode_spec(toks@),
    ;

    fn lookup(&self, text: &Vec<char>) -> (r: Option<u32>)
        ensures
            r == self.token_of(text@),
    ;
}

/// A codec whose decode distributes over concatenation of token sequences.
pub open spec fn codec_additive<C: Codec>(c: C) -> bool {
    forall|a: Seq<u32>, b: Seq<u32>| #[trigger]
        c.decode_spec(a + b) == c.decode_spec(a) + c.decode_spec(b)
}

/// An additive codec decodes the empty sequence to the empty text.
pub proof fn lemma_additive_empty<C: Codec>(c: C)
    requires
        codec_additive(c),
    ensures
        c.decode_spec(Seq::<u32>::empty()) == Seq::<char>::empty(),
{
    let e = Seq::<u32>::empty();
    assert(e + e =~= e);
    assert(c.decode_spec(e + e) == c.decode_spec(e) + c.decode_spec(e));
    assert(c.decode_spec(e).len() + c.decode_spec(e).len() == c.decode_spec(e).len());
    assert(c.decode_spec(e) =~= Seq::<char>::empty());
}

/// For an additive codec, the decode of a span splits at any interior cut.
pub proof fn lemma_additive_split<C: Codec>(c: C, s: Seq<u32>, a: int, b: int, d: int)
    requires
        codec_additive(c),
        0 <= a <= b <= d <= s.len(),
    ensures
        c.decode_spec(s.subrange(a, d)) == c.decode_spec(s.subrange(a, b)) + c.decode_spec(
            s.subrange(b, d),
        ),
{
    assert(s.subrange(a, d) =~= s.subrange(a, b) + s.subrange(b, d));
    assert(c.decode_spec(s.subrange(a, b) + s.subrange(b, d)) == c.decode_spec(s.subrange(a, b))
        + c.decode_spec(s.subrange(b, d)));
}

/// The text `entries` assigns to one token: its table entry, or empty text
/// for an id outside the table.
pub open spec fn entry_text(entries: Seq<Seq<char>>, t: u32) -> Seq<char> {
    if t < entries.len() {
        entries[t as int]
    } else {
        Seq::empty()
    }
}

/// The table decode of a token sequence: the concatenation of the entries.
pub open spec fn table_decode(entries: Seq<Seq<char>>, toks: Seq<u32>) -> Seq<char>
    decreases toks.len(),
{
    if toks.len() == 0 {
        Seq::empty()
    } else {
        entry_text(entries, toks[0]) + table_decode(entries, toks.skip(1))
    }
}

/// The first table index whose entry is exactly `text`, scanning from `i`.
pub open spec fn table_lookup_from(entries: Seq<Seq<char>>, text: Seq<char>, i: int) -> Option<u32>
    decreases entries.len() - i,
{
    if i < 0 || i >= entries.len() {
        None
    } else if entries[i] == text {
        Some(i as u32)
    } else {
        table_lookup_from(entries, text, i + 1)
    }
}

/// A vocabulary codec backed by a fixed table: token id `t` renders to the
/// table entry at index `t`, and decoding is the concatenation of entries.
/// Decoding fails exactly when some token id lies outside the table.
pub struct TableCodec {
    vocab: Vec<Vec<char>>,
}

impl TableCodec {
    /// The table, one text entry per token id.
    pub closed spec fn entries(&self) -> Seq<Seq<char>> {
        self.vocab@.map_values(|e: Vec<char>| e@)
    }

    /// Token ids are `u32`, so the table never exceeds the `u32` range.
    pub fn new(vocab: Vec<Vec<char>>) -> (r: TableCodec)
        requires
            vocab@.len() <= u32::MAX,
        ensures
            r.entries() == vocab@.map_values(|e: Vec<char>| e@),
    {
        TableCodec { vocab }
    }

    /// The number of entries in the table.
    pub fn vocab_len(&self) -> (r: usize)
        ensures
            r == self.entries().len(),
    {
        self.vocab.len()
    }
}

impl Codec for TableCodec {
    open spec fn decode_spec(&self, toks: Seq<u32>) -> Seq<char> {
        table_decode(self.entries(), toks)
    }

    open spec fn token_of(&self, text: Seq<char>) -> Option<u32> {
        table_lookup_from(self.entries(), text, 0)
    }

    fn decode(&self, toks: &Vec<u32>) -> (r: Result<Vec<char>, DecodeError>)
        ensures
            r matches Ok(text) ==> text@ == self.decode_spec(toks@),
    {
        let mut out: Vec<char> = Vec::new();
        let mut i: usize = 0;
        while i < toks.len()
            invariant
                i <= toks@.len(),
                out@ == table_decode(self.entries(), toks@.take(i as int)),
                forall|k: int| 0 <= k < i ==> toks@[k] < self.entries().len(),
            decreases toks@.len() - i,
        {
            let t = toks[i];
            if (t as usize) >= self.vocab.len() {
                return Err(DecodeError);
            }
            let entry = &self.vocab[t as usize];
            let mut j: usize = 0;
            while j < entry.len()
                invariant
                    j <= entry@.len(),
                    entry@ == self.entries()[t as int],
                    t < self.entries().len(),
                    out@ == table_decode(self.entries(), toks@.take(i as int)) + entry@.take(
                        j as int,
                    ),
                decreases entry@.len() - j,
            {
                out.push(entry[j]);
                proof {
                    assert(out@ =~= table_decode(self.entries(), toks@.take(i as int))
                        + entry@.take(j + 1));
                }
                j = j + 1;
            }
            proof {
                assert(entry@.take(entry@.len() as int) =~= entry@);
                lemma_table_decode_snoc(self.entries(), toks@.take(i as int), t);
                assert(toks@.take(i as int).push(t) =~= toks@.take(i + 1));
            }
            i = i + 1;
        }
        proof {
            assert(toks@.take(toks@.len() as int) =~= toks@);
        }
        Ok(out)
    }

    fn lookup(&self, text: &Vec<char>) -> (r: Option<u32>)
        ensures
            r == self.token_of(text@),
    {
        let mut i: usize = 0;
        while i < self.vocab.len()
            invariant
                i <= self.vocab@.len(),
                table_lookup_from(self.entries(), text@, 0) == table_lookup_from(
                    self.entries(),
                    text@,
                    i as int,
                ),
            decreases self.vocab@.len() - i,
        {
            if crate::vecs::eq_chars(&self.vocab[i], text) {
                return Some(i as u32);
            }
            i = i + 1;
        }
        None
    }
}

/// Appending one token to a sequence appends its entry to the table decode.
pub proof fn lemma_table_decode_snoc(entries: Seq<Seq<char>>, toks: Seq<u32>, t: u32)
    ensures
        table_decode(entries, toks.push(t)) == table_decode(entries, toks) + entry_text(entries, t),
    decreases toks.len(),
{
    if toks.len() == 0 {
        assert(toks.push(t).skip(1) =~= Seq::<u32>::empty());
        assert(toks.push(t)[0] == t);
        assert(table_decode(entries, toks.push(t)) == entry_text(entries, t) + table_decode(
            entries,
            Seq::<u32>::empty(),
        ));
        assert(entry_text(entries, t) + Seq::<char>::empty() =~= entry_text(entries, t));
        assert(table_decode(entries, toks) + entry_text(entries, t) =~= entry_text(entries, t));
    } else {
        assert(toks.push(t).skip(1) =~= toks.skip(1).push(t));
        lemma_table_decode_snoc(entries, toks.skip(1), t);
        assert(table_decode(entries, toks.push(t)) == entry_text(entries, toks[0]) + (table_decode(
            entries,
            toks.skip(1),
        ) + entry_text(entries, t)));
        assert(entry_text(entries, toks[0]) + (table_decode(entries, toks.skip(1)) + entry_text(
            entries,
            t,
        )) =~= (entry_text(entries, toks[0]) + table_decode(entries, toks.skip(1))) + entry_text(
            entries,
            t,
        ));
    }
}

/// The table decode distributes over concatenation.
pub proof fn lemma_table_decode_concat(entries: Seq<Seq<char>>, a: Seq<u32>, b: Seq<u32>)
    ensures
        table_decode(entries, a + b) == table_decode(entries, a) + table_decode(entries, b),
    decreases b.len(),
{
    if b.len() == 0 {
        assert(a + b =~= a);
        assert(table_decode(entries, a) + table_decode(entries, b) =~= table_decode(entries, a));
    } else {
        let b0 = b.drop_last();
        lemma_table_decode_concat(entries, a, b0);
        lemma_table_decode_snoc(entries, a + b0, b.last());
        lemma_table_decode_snoc(entries, b0, b.last());
        assert((a + b0).push(b.last()) =~= a + b);
        assert(b0.push(b.last()) =~= b);
        assert(table_decode(entries, a) + (table_decode(entries, b0) + entry_text(
            entries,
            b.last(),
        )) =~= (table_decode(entries, a) + table_decode(entries, b0)) + entry_text(
            entries,
            b.last(),
        ));
    }
}

/// Law: the table codec is additive, so the streaming detokenizer's
/// accounting is exact over it.
pub proof fn lemma_table_codec_additive(c: &TableCodec)
    ensures
        codec_additive(*c),
{
    assert forall|a: Seq<u32>, b: Seq<u32>| #[trigger] c.decode_spec(a + b) == c.decode_spec(a)
        + c.decode_spec(b) by {
        lemma_table_decode_concat(c.entries(), a, b);
    }
}

} // verus!
