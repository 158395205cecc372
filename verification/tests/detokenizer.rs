//! Tests of the streaming detokenizer: exact once-only emission, the
//! alphanumeric withholding heuristic, the end-of-stream flush, and reuse
//! after a reset.

use ai::codec::{Codec, DecodeError, TableCodec};
use ai::token_output_stream::TokenOutputStream;

fn chars(s: &str) -> Vec<char> {
    s.chars().collect()
}

/// Vocabulary of merged subwords: 0 -> "he", 1 -> "llo", 2 -> " wor",
/// 3 -> "ld!", 4 -> "?".
fn subword_codec() -> TableCodec {
    TableCodec::new(vec![chars("he"), chars("llo"), chars(" wor"), chars("ld!"), chars("?")])
}

#[test]
fn fragments_concatenate_to_the_full_decode() {
    let mut stream = TokenOutputStream::new(subword_codec());
    let toks: Vec<u32> = vec![0, 1, 2, 3];
    let mut collected: Vec<char> = Vec::new();
    for t in &toks {
        if let Some(frag) = stream.next_token(*t).unwrap() {
            // A returned fragment is never empty.
            assert!(!frag.is_empty());
            collected.extend(frag);
        }
    }
    if let Some(rest) = stream.decode_rest().unwrap() {
        collected.extend(rest);
    }
    let full = stream.decode_all().unwrap();
    assert_eq!(collected, full);
    assert_eq!(collected, chars("hello world!"));
}

#[test]
fn non_alphanumeric_tail_is_withheld_until_the_flush() {
    let mut stream = TokenOutputStream::new(subword_codec());
    assert_eq!(stream.next_token(0).unwrap(), Some(chars("he")));
    assert_eq!(stream.next_token(1).unwrap(), Some(chars("llo")));
    assert_eq!(stream.next_token(2).unwrap(), Some(chars(" wor")));
    // "ld!" ends in '!', so the heuristic withholds it.
    assert_eq!(stream.next_token(3).unwrap(), None);
    // The flush hands out exactly the withheld suffix.
    assert_eq!(stream.decode_rest().unwrap(), Some(chars("ld!")));
}

#[test]
fn flush_on_a_fully_emitted_stream_returns_nothing() {
    let mut stream = TokenOutputStream::new(subword_codec());
    assert_eq!(stream.next_token(0).unwrap(), Some(chars("he")));
    assert_eq!(stream.decode_rest().unwrap(), None);
}

#[test]
fn flush_on_an_empty_stream_returns_nothing() {
    let stream = TokenOutputStream::new(subword_codec());
    assert_eq!(stream.decode_rest().unwrap(), None);
}

#[test]
fn clear_resets_the_stream_for_reuse() {
    let mut stream = TokenOutputStream::new(subword_codec());
    assert_eq!(stream.next_token(0).unwrap(), Some(chars("he")));
    stream.clear();
    // After the reset the first token decodes from a fresh history.
    assert_eq!(stream.next_token(1).unwrap(), Some(chars("llo")));
    assert_eq!(stream.decode_all().unwrap(), chars("llo"));
}

#[test]
fn unknown_token_fails_the_decode_and_stays_recorded() {
    let mut stream = TokenOutputStream::new(subword_codec());
    assert_eq!(stream.next_token(9), Err(DecodeError));
    // The failed token is part of the history, so a full decode fails too.
    assert_eq!(stream.decode_all(), Err(DecodeError));
}

#[test]
fn get_token_looks_up_the_vocabulary() {
    let stream = TokenOutputStream::new(subword_codec());
    assert_eq!(stream.get_token(&chars("llo")), Some(1));
    assert_eq!(stream.get_token(&chars("xyz")), None);
}

#[test]
fn into_inner_returns_the_codec() {
    let stream = TokenOutputStream::new(subword_codec());
    let codec = stream.into_inner();
    assert_eq!(codec.decode(&vec![0u32]).unwrap(), chars("he"));
}
