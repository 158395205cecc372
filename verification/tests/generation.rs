//! End-to-end tests of the generation loop over fake models.

use ai::codec::TableCodec;
use ai::model::{FailingModel, FixedScoreModel, PositionProbeModel};
use ai::penalty::PenaltyConfig;
use ai::sampler::ArgMaxSampler;
use ai::sink::{ClosedSink, VecSink};
use ai::text_generation::{Outcome, RunError, TextGeneration};

fn chars(s: &str) -> Vec<char> {
    s.chars().collect()
}

/// Vocabulary: 0 -> "a", 1 -> "b", 2 -> "c", 3 -> "<|endoftext|>".
fn small_codec() -> TableCodec {
    TableCodec::new(vec![chars("a"), chars("b"), chars("c"), chars("<|endoftext|>")])
}

fn stop_text() -> Vec<char> {
    chars("<|endoftext|>")
}

fn identity_penalty() -> PenaltyConfig {
    PenaltyConfig::new(1, 1, 64)
}

#[test]
fn zero_budget_emits_only_the_prompt() {
    let model = FixedScoreModel { scores: vec![0, 0, 0, 10] };
    let mut tg = TextGeneration::new(
        model,
        ArgMaxSampler {},
        small_codec(),
        identity_penalty(),
        stop_text(),
    );
    let mut sink = VecSink::new();
    let stats = tg.run(&vec![0, 1], 0, &mut sink).unwrap();
    assert_eq!(stats.generated_count, 0);
    assert_eq!(stats.outcome, Outcome::Exhausted);
    assert_eq!(sink.into_chars(), chars("ab"));
}

#[test]
fn stop_token_ends_the_run_after_one_token() {
    // The stop token (index 3) always has the maximal score.
    let model = FixedScoreModel { scores: vec![0, 0, 0, 10] };
    let mut tg = TextGeneration::new(
        model,
        ArgMaxSampler {},
        small_codec(),
        identity_penalty(),
        stop_text(),
    );
    let mut sink = VecSink::new();
    let stats = tg.run(&vec![0, 1], 5, &mut sink).unwrap();
    assert_eq!(stats.generated_count, 1);
    assert_eq!(stats.outcome, Outcome::Stopped);
    // No text is written after the stop token: only the prompt appears.
    assert_eq!(sink.into_chars(), chars("ab"));
}

#[test]
fn exhaustion_generates_the_whole_budget() {
    // Index 2 ("c") always wins and is never the stop token.
    let model = FixedScoreModel { scores: vec![0, 0, 9, 1] };
    let mut tg = TextGeneration::new(
        model,
        ArgMaxSampler {},
        small_codec(),
        identity_penalty(),
        stop_text(),
    );
    let mut sink = VecSink::new();
    let stats = tg.run(&vec![0, 1], 5, &mut sink).unwrap();
    assert_eq!(stats.generated_count, 5);
    assert_eq!(stats.outcome, Outcome::Exhausted);
    assert_eq!(sink.into_chars(), chars("abccccc"));
}

#[test]
fn position_offsets_advance_by_the_window_size() {
    // The probe model's winning score sits at the index equal to the offset
    // it receives, so the generated tokens spell out the offsets. First
    // step: the whole 3-token prompt at offset 0; afterwards one token at
    // the prompt length, then one more each step: offsets 0, 3, 4.
    let model = PositionProbeModel { vocab: 6 };
    let codec = TableCodec::new(vec![
        chars("a"),
        chars("b"),
        chars("c"),
        chars("d"),
        chars("e"),
        chars("<|endoftext|>"),
    ]);
    let mut tg =
        TextGeneration::new(model, ArgMaxSampler {}, codec, identity_penalty(), stop_text());
    let mut sink = VecSink::new();
    let stats = tg.run(&vec![0, 1, 2], 3, &mut sink).unwrap();
    assert_eq!(stats.generated_count, 3);
    // Prompt "abc", then the tokens for offsets 0, 3 and 4: "a", "d", "e".
    assert_eq!(sink.into_chars(), chars("abcade"));
}

#[test]
fn identical_runs_produce_identical_output() {
    let mut outputs: Vec<(usize, Vec<char>)> = Vec::new();
    for _ in 0..2 {
        let model = FixedScoreModel { scores: vec![1, 7, 0, 0] };
        let mut tg = TextGeneration::new(
            model,
            ArgMaxSampler {},
            small_codec(),
            identity_penalty(),
            stop_text(),
        );
        let mut sink = VecSink::new();
        let stats = tg.run(&vec![2, 2], 4, &mut sink).unwrap();
        outputs.push((stats.generated_count, sink.into_chars()));
    }
    assert_eq!(outputs[0], outputs[1]);
}

#[test]
fn empty_prompt_is_rejected() {
    let model = FixedScoreModel { scores: vec![1, 0, 0, 0] };
    let mut tg = TextGeneration::new(
        model,
        ArgMaxSampler {},
        small_codec(),
        identity_penalty(),
        stop_text(),
    );
    let mut sink = VecSink::new();
    let r = tg.run(&Vec::new(), 5, &mut sink);
    assert_eq!(r, Err(RunError::EmptyPrompt));
}

#[test]
fn missing_stop_token_is_rejected_before_the_loop() {
    let model = FixedScoreModel { scores: vec![1, 0, 0, 0] };
    let mut tg = TextGeneration::new(
        model,
        ArgMaxSampler {},
        small_codec(),
        identity_penalty(),
        chars("<missing>"),
    );
    let mut sink = VecSink::new();
    let r = tg.run(&vec![0], 5, &mut sink);
    assert_eq!(r, Err(RunError::VocabularyLookup));
    // Nothing was written: the check happens before the prompt is echoed.
    assert_eq!(sink.into_chars(), chars(""));
}

#[test]
fn unknown_token_from_the_model_aborts_with_a_decode_error() {
    // Index 7 always wins but the vocabulary has only 4 entries.
    let model = FixedScoreModel { scores: vec![0, 0, 0, 0, 0, 0, 0, 5] };
    let mut tg = TextGeneration::new(
        model,
        ArgMaxSampler {},
        small_codec(),
        identity_penalty(),
        stop_text(),
    );
    let mut sink = VecSink::new();
    let r = tg.run(&vec![0], 2, &mut sink);
    assert_eq!(r, Err(RunError::Decode));
    // The prompt text stays delivered; nothing is retracted.
    assert_eq!(sink.into_chars(), chars("a"));
}

#[test]
fn repetition_penalty_steers_the_run_away_from_repeats() {
    // Unpenalized, index 0 ("a") would win every step. With a factor of 2
    // over the whole history, a generated "a" halves its own score to 3, so
    // "b" (score 4) wins the next step; once "b" is in the history too it
    // halves to 2 and "a" (still 3) wins again.
    let model = FixedScoreModel { scores: vec![6, 4, 0, 0] };
    let mut tg = TextGeneration::new(
        model,
        ArgMaxSampler {},
        small_codec(),
        PenaltyConfig::new(2, 1, 64),
        stop_text(),
    );
    let mut sink = VecSink::new();
    let stats = tg.run(&vec![2], 3, &mut sink).unwrap();
    assert_eq!(stats.generated_count, 3);
    // Step 1: history [c]; scores [6,4,..] -> "a".
    // Step 2: history [c,a]; "a" halves to 3 -> "b" (4) wins.
    // Step 3: history [c,a,b]; "a" -> 3, "b" -> 2 -> "a" wins.
    assert_eq!(sink.into_chars(), chars("caba"));
}

#[test]
fn invalid_prompt_token_fails_before_anything_is_written() {
    let model = FixedScoreModel { scores: vec![1, 0, 0, 0] };
    let mut tg = TextGeneration::new(
        model,
        ArgMaxSampler {},
        small_codec(),
        identity_penalty(),
        stop_text(),
    );
    let mut sink = VecSink::new();
    // Token 9 is outside the vocabulary, so the prompt cannot be decoded.
    let r = tg.run(&vec![9], 2, &mut sink);
    assert_eq!(r, Err(RunError::Decode));
    assert_eq!(sink.into_chars(), chars(""));
}

#[test]
fn a_failing_model_aborts_the_run() {
    let mut tg = TextGeneration::new(
        FailingModel {},
        ArgMaxSampler {},
        small_codec(),
        identity_penalty(),
        stop_text(),
    );
    let mut sink = VecSink::new();
    let r = tg.run(&vec![0, 1], 3, &mut sink);
    assert_eq!(r, Err(RunError::ModelForward));
    // The prompt was already delivered and stays delivered.
    assert_eq!(sink.into_chars(), chars("ab"));
}

#[test]
fn a_failing_sink_aborts_the_run() {
    let model = FixedScoreModel { scores: vec![9, 0, 0, 0] };
    let mut tg = TextGeneration::new(
        model,
        ArgMaxSampler {},
        small_codec(),
        identity_penalty(),
        stop_text(),
    );
    let mut sink = ClosedSink {};
    let r = tg.run(&vec![0], 2, &mut sink);
    assert_eq!(r, Err(RunError::Sink));
}
