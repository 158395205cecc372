//! Tests of the numeric policies, the table codec, and the command-layer
//! decisions.

use ai::ai_backend::{
    ConverseEvent, WhichModel, default_model_id, default_revision, get_converse_output_text,
    quantized_weight_file,
};
use ai::codec::{Codec, DecodeError, TableCodec};
use ai::command::{BackendKind, choose_backend, show_spinner};
use ai::model::{FixedScoreModel, SequenceModel};
use ai::penalty::{PenaltyConfig, apply_repeat_penalty};
use ai::sampler::{ArgMaxSampler, LogitsSampler};
use ai::settings::{AwsSettings, LogVerbosity, parse_verbosity};
use ai::sink::{OutputSink, VecSink};

fn chars(s: &str) -> Vec<char> {
    s.chars().collect()
}

#[test]
fn penalty_factor_one_is_the_identity() {
    let scores: Vec<i64> = vec![10, -10, 7, 0, i64::MAX, i64::MIN];
    let cfg = PenaltyConfig::new(3, 3, 64);
    let out = apply_repeat_penalty(&scores, &vec![0, 1, 2, 3, 4, 5], &cfg);
    assert_eq!(out, scores);
}

#[test]
fn penalty_scales_only_the_window_indices() {
    let scores: Vec<i64> = vec![10, -10, 7];
    let cfg = PenaltyConfig::new(2, 1, 64);
    let out = apply_repeat_penalty(&scores, &vec![0, 1], &cfg);
    // 10 / 2 = 5; -10 * 2 = -20; index 2 is absent from the window.
    assert_eq!(out, vec![5, -20, 7]);
}

#[test]
fn penalty_division_truncates_toward_zero() {
    let scores: Vec<i64> = vec![7, -7];
    let cfg = PenaltyConfig::new(2, 1, 64);
    let out = apply_repeat_penalty(&scores, &vec![0, 1], &cfg);
    assert_eq!(out, vec![3, -14]);
}

#[test]
fn penalty_with_a_repeated_window_entry_applies_once() {
    let scores: Vec<i64> = vec![8];
    let cfg = PenaltyConfig::new(2, 1, 64);
    let out = apply_repeat_penalty(&scores, &vec![0, 0, 0], &cfg);
    assert_eq!(out, vec![4]);
}

#[test]
fn penalty_saturates_at_the_integer_range() {
    let scores: Vec<i64> = vec![i64::MIN];
    let cfg = PenaltyConfig::new(2, 1, 64);
    let out = apply_repeat_penalty(&scores, &vec![0], &cfg);
    assert_eq!(out, vec![i64::MIN]);
}

#[test]
fn arg_max_picks_the_first_maximum() {
    let mut sampler = ArgMaxSampler {};
    assert_eq!(sampler.sample(&vec![3, 9, 9, 2]), 1);
    assert_eq!(sampler.sample(&vec![-5, -2, -2]), 1);
    assert_eq!(sampler.sample(&vec![4]), 0);
}

#[test]
fn arg_max_on_empty_scores_returns_zero() {
    let mut sampler = ArgMaxSampler {};
    assert_eq!(sampler.sample(&Vec::<i64>::new()), 0);
}

#[test]
fn table_codec_decodes_by_concatenation() {
    let codec = TableCodec::new(vec![chars("a"), chars("bc"), chars("")]);
    assert_eq!(codec.decode(&vec![0, 1, 2, 1]).unwrap(), chars("abcbc"));
    assert_eq!(codec.decode(&Vec::new()).unwrap(), chars(""));
    assert_eq!(codec.decode(&vec![0, 3]), Err(DecodeError));
}

#[test]
fn table_codec_lookup_finds_the_first_match() {
    let codec = TableCodec::new(vec![chars("a"), chars("b"), chars("b")]);
    assert_eq!(codec.lookup(&chars("b")), Some(1));
    assert_eq!(codec.lookup(&chars("z")), None);
    assert_eq!(codec.vocab_len(), 3);
}

#[test]
fn fixed_score_model_ignores_window_and_position() {
    let mut m = FixedScoreModel { scores: vec![1, 2] };
    assert_eq!(m.forward(&vec![5], 0).unwrap(), vec![1, 2]);
    assert_eq!(m.forward(&vec![1, 2, 3], 99).unwrap(), vec![1, 2]);
}

#[test]
fn vec_sink_collects_writes_in_order() {
    let mut sink = VecSink::new();
    sink.write(&chars("he")).unwrap();
    sink.write(&chars("llo")).unwrap();
    sink.flush().unwrap();
    assert_eq!(sink.chars(), &chars("hello"));
    assert_eq!(sink.into_chars(), chars("hello"));
}

#[test]
fn backend_choice_prefers_the_argument_over_the_default() {
    let default = "local".to_string();
    assert_eq!(
        choose_backend(&Some("bedrock".to_string()), &default),
        Some(BackendKind::Bedrock)
    );
    assert_eq!(choose_backend(&None, &default), Some(BackendKind::Local));
    assert_eq!(choose_backend(&Some("cloud".to_string()), &default), None);
}

#[test]
fn spinner_is_shown_only_below_info_verbosity() {
    assert!(show_spinner(LogVerbosity::Error));
    assert!(show_spinner(LogVerbosity::Warn));
    assert!(!show_spinner(LogVerbosity::Info));
    assert!(!show_spinner(LogVerbosity::Debug));
    assert!(!show_spinner(LogVerbosity::Trace));
}

#[test]
fn verbosity_names_parse_with_an_error_fallback() {
    assert_eq!(parse_verbosity(&"error".to_string()), LogVerbosity::Error);
    assert_eq!(parse_verbosity(&"warn".to_string()), LogVerbosity::Warn);
    assert_eq!(parse_verbosity(&"info".to_string()), LogVerbosity::Info);
    assert_eq!(parse_verbosity(&"debug".to_string()), LogVerbosity::Debug);
    assert_eq!(parse_verbosity(&"trace".to_string()), LogVerbosity::Trace);
    assert_eq!(parse_verbosity(&"loud".to_string()), LogVerbosity::Error);
}

#[test]
fn converse_events_contribute_only_their_text_deltas() {
    assert_eq!(
        get_converse_output_text(ConverseEvent::ContentBlockDelta(Some("hi".to_string()))),
        "hi".to_string()
    );
    assert_eq!(
        get_converse_output_text(ConverseEvent::ContentBlockDelta(None)),
        String::new()
    );
    assert_eq!(get_converse_output_text(ConverseEvent::MessageStart), String::new());
    assert_eq!(get_converse_output_text(ConverseEvent::Metadata), String::new());
    assert_eq!(get_converse_output_text(ConverseEvent::ContentBlockStop), String::new());
}

#[test]
fn local_model_defaults_follow_the_flags() {
    assert_eq!(default_model_id(true, WhichModel::V2), "lmz/candle-quantized-phi");
    assert_eq!(default_model_id(true, WhichModel::V3), "lmz/candle-quantized-phi");
    assert_eq!(default_model_id(false, WhichModel::V2), "microsoft/phi-2");
    assert_eq!(
        default_model_id(false, WhichModel::V3),
        "microsoft/Phi-3-mini-4k-instruct"
    );
    assert_eq!(default_revision(false, WhichModel::V2), "main");
    assert_eq!(default_revision(true, WhichModel::V3), "main");
    assert_eq!(quantized_weight_file(WhichModel::V2), Some("model-v2-q4k.gguf"));
    assert_eq!(quantized_weight_file(WhichModel::V3), None);
}

#[test]
fn aws_settings_carry_plain_values() {
    let s = AwsSettings { profile: None, region: "us-east-1".to_string() };
    assert_eq!(s.region, "us-east-1");
    assert!(s.profile.is_none());
}
