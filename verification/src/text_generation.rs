//! The generation loop: drives a sequence model one token at a time,
//! applies the repetition penalty and the sampling policy, appends the
//! chosen token to the history, and streams newly stabilized text to an
//! output sink, until the stop token appears or the step budget runs out.
//!
//! The loop's visible behaviour is pinned to spec level: [`run_trace`]
//! unfolds a whole run as a function of the initial model and sampler
//! states, the codec, the penalty, the stop token, the prompt, and the
//! budget — so generation is deterministic by contract.

use vstd::prelude::*;
use crate::codec::Codec;
use crate::model::SequenceModel;
use crate::penalty::{
    PenaltyConfig, apply_repeat_penalty, lemma_penalized_identity, penalized, penalty_window,
};
use crate::sampler::LogitsSampler;
use crate::sink::OutputSink;
use crate::token_output_stream::{
    StreamView, TokenOutputStream, empty_stream_view, stream_next, stream_remainder,
};
use crate::vecs::vec_range;

verus! {

/// How a successful run ended: by the stop token, or by exhausting the
/// step budget.
#[derive(Clone, Copy, Debug, PartialEq, Eq, Structural)]
pub enum Outcome {
    Stopped,
    Exhausted,
}

/// Why a run aborted. Every error is fatal: an autoregressive step is never
/// retried, since that would duplicate or skip a position.
#[derive(Clone, Copy, Debug, PartialEq, Eq, Structural)]
pub enum RunError {
    /// The prompt token sequence was empty; the first model step requires a
    /// non-empty window.
    EmptyPrompt,
    /// The codec has no entry for the designated stop token; checked once
    /// before the loop starts.
    VocabularyLookup,
    /// The model's forward pass failed.
    ModelForward,
    /// The codec failed to render a token span.
    Decode,
    /// The sink rejected a write or the final flush; text already delivered
    /// stays delivered.
    Sink,
}

/// What a run reports on success.
#[derive(Clone, Copy, Debug, PartialEq, Eq, Structural)]
pub struct GenerationStats {
    /// How many tokens were generated, the stop token included.
    pub generated_count: usize,
    /// Wall-clock duration of the generation loop.
    pub elapsed_millis: u64,
    /// Whether the stop token or the budget ended the run.
    pub outcome: Outcome,
}

/// Relies on std::time::SystemTime::now: a reading of the wall clock in
/// milliseconds since the Unix epoch; nothing is promised of its value.
#[verifier::external_body]
fn clock_millis() -> u64 {
    match std::time::SystemTime::now().duration_since(std::time::UNIX_EPOCH) {
        Ok(d) => d.as_millis() as u64,
        Err(_) => 0,
    }
}

/// The state of one run between steps: the collaborators' states, the token
/// history, the position offset, the detokenizer state, and the counters.
pub struct TraceState<M, S> {
    pub model: M,
    pub sampler: S,
    pub hist: Seq<u32>,
    pub pos: int,
    pub stream: StreamView,
    pub generated: int,
    pub stopped: bool,
}

/// The state a run starts from: the prompt is the whole history.
pub open spec fn init_trace<M, S>(model: M, sampler: S, prompt: Seq<u32>) -> TraceState<M, S> {
    TraceState {
        model,
        sampler,
        hist: prompt,
        pos: 0,
        stream: empty_stream_view(),
        generated: 0,
        stopped: false,
    }
}

/// The context window of the step about to run: the whole history on the
/// first step (to prime the model's internal state), the single most recent
/// token afterwards.
pub open spec fn trace_window<M, S>(t: TraceState<M, S>) -> Seq<u32> {
    if t.generated == 0 {
        t.hist
    } else {
        t.hist.skip(t.hist.len() - 1)
    }
}

/// The penalized scores of the step about to run.
pub open spec fn step_scores<M: SequenceModel, S: LogitsSampler>(
    cfg: PenaltyConfig,
    t: TraceState<M, S>,
) -> Seq<i64> {
    penalized(
        t.model.scores_of(trace_window(t), t.pos),
        penalty_window(t.hist, cfg.last_n as int),
        cfg.factor_num as int,
        cfg.factor_den as int,
    )
}

/// One full generation step: forward pass, penalty, sampling, history
/// update, stop check, and — for a non-stop token — detokenization and the
/// position advance by the window size used. The stop token itself is never
/// fed to the detokenizer, so it produces no visible text.
pub open spec fn trace_step<M: SequenceModel, S: LogitsSampler, C: Codec>(
    codec: C,
    cfg: PenaltyConfig,
    stop: u32,
    t: TraceState<M, S>,
) -> TraceState<M, S> {
    let w = trace_window(t);
    let scores = step_scores(cfg, t);
    let model2 = t.model.stepped(w, t.pos);
    let tok = t.sampler.choice(scores);
    let sampler2 = t.sampler.advanced(scores);
    let hist2 = t.hist.push(tok);
    if tok == stop {
        TraceState {
            model: model2,
            sampler: sampler2,
            hist: hist2,
            pos: t.pos,
            stream: t.stream,
            generated: t.generated + 1,
            stopped: true,
        }
    } else {
        TraceState {
            model: model2,
            sampler: sampler2,
            hist: hist2,
            pos: t.pos + w.len(),
            stream: stream_next(codec, t.stream, tok).0,
            generated: t.generated + 1,
            stopped: false,
        }
    }
}

/// The state after up to `steps` generation steps; the trace halts as soon
/// as a step samples the stop token.
pub open spec fn run_trace<M: SequenceModel, S: LogitsSampler, C: Codec>(
    codec: C,
    cfg: PenaltyConfig,
    stop: u32,
    t: TraceState<M, S>,
    steps: nat,
) -> TraceState<M, S>
    decreases steps,
{
    if steps == 0 || t.stopped {
        t
    } else {
        run_trace(codec, cfg, stop, trace_step(codec, cfg, stop, t), (steps - 1) as nat)
    }
}

/// The stop token a codec assigns to the stop literal's text (`0` when the
/// vocabulary has no entry; a run reports that case as an error instead).
pub open spec fn stop_of<C: Codec>(codec: C, stop_text: Seq<char>) -> u32 {
    match codec.token_of(stop_text) {
        Some(t) => t,
        None => 0,
    }
}

/// Everything a successful run writes to its sink: the decoded prompt text,
/// each fragment the detokenizer stabilized, and the end-of-stream
/// remainder.
pub open spec fn run_output<M: SequenceModel, S: LogitsSampler, C: Codec>(
    codec: C,
    cfg: PenaltyConfig,
    stop: u32,
    model: M,
    sampler: S,
    prompt: Seq<u32>,
    steps: nat,
) -> Seq<char> {
    let t = run_trace(codec, cfg, stop, init_trace(model, sampler, prompt), steps);
    codec.decode_spec(prompt) + t.stream.emitted + stream_remainder(codec, t.stream)
}

/// The count a successful run reports.
pub open spec fn run_generated<M: SequenceModel, S: LogitsSampler, C: Codec>(
    codec: C,
    cfg: PenaltyConfig,
    stop: u32,
    model: M,
    sampler: S,
    prompt: Seq<u32>,
    steps: nat,
) -> int {
    run_trace(codec, cfg, stop, init_trace(model, sampler, prompt), steps).generated
}

/// Whether a run ended on the stop token rather than by exhaustion.
pub open spec fn run_stopped<M: SequenceModel, S: LogitsSampler, C: Codec>(
    codec: C,
    cfg: PenaltyConfig,
    stop: u32,
    model: M,
    sampler: S,
    prompt: Seq<u32>,
    steps: nat,
) -> bool {
    run_trace(codec, cfg, stop, init_trace(model, sampler, prompt), steps).stopped
}

/// Running `i + j` steps is running `i` steps and then `j` more.
pub proof fn lemma_run_trace_split<M: SequenceModel, S: LogitsSampler, C: Codec>(
    codec: C,
    cfg: PenaltyConfig,
    stop: u32,
    t: TraceState<M, S>,
    i: nat,
    j: nat,
)
    ensures
        run_trace(codec, cfg, stop, t, i + j) == run_trace(
            codec,
            cfg,
            stop,
            run_trace(codec, cfg, stop, t, i),
            j,
        ),
    decreases i,
{
    if t.stopped || i == 0 {
    } else {
        lemma_run_trace_split(codec, cfg, stop, trace_step(codec, cfg, stop, t), (i - 1) as nat, j);
        assert(run_trace(codec, cfg, stop, t, i + j) == run_trace(
            codec,
            cfg,
            stop,
            trace_step(codec, cfg, stop, t),
            (i + j - 1) as nat,
        ));
    }
}

/// Unfolding one step at the end of a trace that has not stopped yet.
pub proof fn lemma_run_trace_unfold<M: SequenceModel, S: LogitsSampler, C: Codec>(
    codec: C,
    cfg: PenaltyConfig,
    stop: u32,
    t: TraceState<M, S>,
    k: nat,
)
    requires
        !run_trace(codec, cfg, stop, t, k).stopped,
    ensures
        run_trace(codec, cfg, stop, t, k + 1) == trace_step(
            codec,
            cfg,
            stop,
            run_trace(codec, cfg, stop, t, k),
        ),
    decreases k,
{
    if t.stopped {
        assert(run_trace(codec, cfg, stop, t, k) == t);
    } else if k == 0 {
        assert(run_trace(codec, cfg, stop, t, 0) == t);
        assert(run_trace(codec, cfg, stop, t, 1) == run_trace(
            codec,
            cfg,
            stop,
            trace_step(codec, cfg, stop, t),
            0,
        ));
    } else {
        let t1 = trace_step(codec, cfg, stop, t);
        assert(run_trace(codec, cfg, stop, t, k) == run_trace(codec, cfg, stop, t1, (k - 1) as nat));
        lemma_run_trace_unfold(codec, cfg, stop, t1, (k - 1) as nat);
        assert((k - 1) as nat + 1 == k);
        assert(run_trace(codec, cfg, stop, t, k + 1) == run_trace(codec, cfg, stop, t1, k));
    }
}

/// Law: a trace generates at most one token per budgeted step, and a trace
/// that never samples the stop token generates exactly its budget — the
/// exhaustion outcome reports the full budget as its count.
pub proof fn lemma_run_trace_budget<M: SequenceModel, S: LogitsSampler, C: Codec>(
    codec: C,
    cfg: PenaltyConfig,
    stop: u32,
    t: TraceState<M, S>,
    steps: nat,
)
    ensures
        run_trace(codec, cfg, stop, t, steps).generated <= t.generated + steps,
        !run_trace(codec, cfg, stop, t, steps).stopped && !t.stopped ==> run_trace(
            codec,
            cfg,
            stop,
            t,
            steps,
        ).generated == t.generated + steps,
    decreases steps,
{
    if steps == 0 || t.stopped {
    } else {
        lemma_run_trace_budget(
            codec,
            cfg,
            stop,
            trace_step(codec, cfg, stop, t),
            (steps - 1) as nat,
        );
    }
}

/// Law: a trace stops only by sampling the stop token, which it records as
/// the last entry of its history; the stopping step leaves the detokenizer
/// untouched, so the stop token itself produces no visible text.
pub proof fn lemma_stopped_means_stop_token<M: SequenceModel, S: LogitsSampler, C: Codec>(
    codec: C,
    cfg: PenaltyConfig,
    stop: u32,
    t: TraceState<M, S>,
    steps: nat,
)
    requires
        !t.stopped,
        run_trace(codec, cfg, stop, t, steps).stopped,
    ensures
        run_trace(codec, cfg, stop, t, steps).hist.len() > 0,
        run_trace(codec, cfg, stop, t, steps).hist.last() == stop,
        !run_trace(codec, cfg, stop, t, steps).stream.toks.contains(stop) || t.stream.toks.contains(
            stop,
        ),
    decreases steps,
{
    if steps > 0 {
        let t1 = trace_step(codec, cfg, stop, t);
        if t1.stopped {
            assert(run_trace(codec, cfg, stop, t1, (steps - 1) as nat) == t1);
        } else {
            lemma_stopped_means_stop_token(codec, cfg, stop, t1, (steps - 1) as nat);
            let tok = t.sampler.choice(step_scores(cfg, t));
            assert(tok != stop);
            assert(t1.stream.toks == t.stream.toks.push(tok));
            if t1.stream.toks.contains(stop) {
                let i = choose|i: int|
                    0 <= i < t1.stream.toks.len() && t1.stream.toks[i] == stop;
                assert(t.stream.toks[i] == stop);
                assert(t.stream.toks.contains(stop));
            }
        }
    }
}

/// Law: with a step budget of zero a run generates nothing and emits exactly
/// the decoded prompt text, whatever the model, sampler and codec.
pub proof fn lemma_zero_budget<M: SequenceModel, S: LogitsSampler, C: Codec>(
    codec: C,
    cfg: PenaltyConfig,
    stop: u32,
    model: M,
    sampler: S,
    prompt: Seq<u32>,
)
    ensures
        run_generated(codec, cfg, stop, model, sampler, prompt, 0) == 0,
        run_output(codec, cfg, stop, model, sampler, prompt, 0) == codec.decode_spec(prompt),
        !run_stopped(codec, cfg, stop, model, sampler, prompt, 0),
{
    let t = run_trace(codec, cfg, stop, init_trace(model, sampler, prompt), 0);
    assert(stream_remainder(codec, t.stream) == Seq::<char>::empty());
    assert(codec.decode_spec(prompt) + t.stream.emitted + stream_remainder(codec, t.stream)
        =~= codec.decode_spec(prompt));
}

/// Law: generation is deterministic. The text a run writes, the count it
/// reports, and its outcome are functions of the codec, penalty, stop
/// token, initial model and sampler states, prompt, and budget — the exec
/// [`TextGeneration::run`] is pinned to these functions by its
/// postcondition, so two runs from equal initial states (in particular,
/// equal seeds) produce identical output and identical counts.
pub proof fn lemma_run_deterministic<M: SequenceModel, S: LogitsSampler, C: Codec>(
    codec1: C,
    codec2: C,
    cfg1: PenaltyConfig,
    cfg2: PenaltyConfig,
    stop1: u32,
    stop2: u32,
    model1: M,
    model2: M,
    sampler1: S,
    sampler2: S,
    prompt1: Seq<u32>,
    prompt2: Seq<u32>,
    steps1: nat,
    steps2: nat,
)
    requires
        codec1 == codec2,
        cfg1 == cfg2,
        stop1 == stop2,
        model1 == model2,
        sampler1 == sampler2,
        prompt1 == prompt2,
        steps1 == steps2,
    ensures
        run_output(codec1, cfg1, stop1, model1, sampler1, prompt1, steps1) == run_output(
            codec2,
            cfg2,
            stop2,
            model2,
            sampler2,
            prompt2,
            steps2,
        ),
        run_generated(codec1, cfg1, stop1, model1, sampler1, prompt1, steps1) == run_generated(
            codec2,
            cfg2,
            stop2,
            model2,
            sampler2,
            prompt2,
            steps2,
        ),
        run_stopped(codec1, cfg1, stop1, model1, sampler1, prompt1, steps1) == run_stopped(
            codec2,
            cfg2,
            stop2,
            model2,
            sampler2,
            prompt2,
            steps2,
        ),
{
}

/// `a` is a prefix of `a + b`.
proof fn lemma_prefix_concat(a: Seq<char>, b: Seq<char>)
    ensures
        a.is_prefix_of(a + b),
{
    assert(a =~= (a + b).subrange(0, a.len() as int));
}

/// The generation pipeline: a model, a sampler, a streaming detokenizer
/// over a codec, the penalty configuration, and the stop literal's text.
pub struct TextGeneration<M: SequenceModel, S: LogitsSampler, C: Codec> {
    pub model: M,
    pub sampler: S,
    pub stream: TokenOutputStream<C>,
    pub penalty: PenaltyConfig,
    pub stop_text: Vec<char>,
}

impl<M: SequenceModel, S: LogitsSampler, C: Codec> TextGeneration<M, S, C> {
    pub open spec fn wf(&self) -> bool {
        self.penalty.wf() && self.stream.wf()
    }

    pub fn new(model: M, sampler: S, codec: C, penalty: PenaltyConfig, stop_text: Vec<char>) -> (r:
        TextGeneration<M, S, C>)
        requires
            penalty.wf(),
        ensures
            r.model == model,
            r.sampler == sampler,
            r.stream.codec() == codec,
            r.stream@ == empty_stream_view(),
            r.penalty == penalty,
            r.stop_text == stop_text,
            r.wf(),
    {
        TextGeneration { model, sampler, stream: TokenOutputStream::new(codec), penalty, stop_text }
    }

    /// Runs the generation loop on an encoded prompt for at most
    /// `max_new_tokens` steps, streaming text to `sink`.
    ///
    /// The prompt's decoded text is written first; then each step invokes
    /// the model, the penalty, and the sampler in order, appends the chosen
    /// token, and writes whatever text the detokenizer stabilizes. A stop
    /// token ends the run; either ending flushes the detokenizer's
    /// remainder and then the sink. On success the sink has grown by
    /// exactly [`run_output`] and the stats report [`run_generated`] — a
    /// pure function of the initial states, so equal seeds reproduce equal
    /// output. Failures abort the run at once; text already delivered is
    /// never retracted.
    #[verifier::loop_isolation(false)]
    pub fn run<K: OutputSink>(
        &mut self,
        prompt_tokens: &Vec<u32>,
        max_new_tokens: usize,
        sink: &mut K,
    ) -> (r: Result<GenerationStats, RunError>)
        requires
            old(self).wf(),
            prompt_tokens@.len() + max_new_tokens <= usize::MAX,
        ensures
            final(self).wf(),
            final(self).penalty == old(self).penalty,
            final(self).stop_text == old(self).stop_text,
            final(self).stream.codec() == old(self).stream.codec(),
            (r == Err::<GenerationStats, RunError>(RunError::EmptyPrompt) <==> prompt_tokens@.len()
                == 0),
            (r == Err::<GenerationStats, RunError>(RunError::VocabularyLookup) <==> (
            prompt_tokens@.len() > 0 && old(self).stream.codec().token_of(old(self).stop_text@)
                is None)),
            r is Err ==> old(sink).content().is_prefix_of(final(sink).content()),
            r == Err::<GenerationStats, RunError>(RunError::ModelForward) ==> max_new_tokens > 0,
            r matches Ok(stats) ==> ({
                let codec = old(self).stream.codec();
                let stop = stop_of(codec, old(self).stop_text@);
                let tr = run_trace(
                    codec,
                    old(self).penalty,
                    stop,
                    init_trace(old(self).model, old(self).sampler, prompt_tokens@),
                    max_new_tokens as nat,
                );
                &&& prompt_tokens@.len() > 0
                &&& codec.token_of(old(self).stop_text@) is Some
                &&& final(sink).content() == old(sink).content() + run_output(
                    codec,
                    old(self).penalty,
                    stop,
                    old(self).model,
                    old(self).sampler,
                    prompt_tokens@,
                    max_new_tokens as nat,
                )
                &&& stats.generated_count as int == tr.generated
                &&& stats.generated_count <= max_new_tokens
                &&& (stats.outcome == Outcome::Stopped <==> tr.stopped)
                &&& (stats.outcome == Outcome::Exhausted ==> stats.generated_count
                    == max_new_tokens)
                &&& final(self).model == tr.model
                &&& final(self).sampler == tr.sampler
                &&& final(self).stream@ == tr.stream
            }),
    {
        if prompt_tokens.len() == 0 {
            return Err(RunError::EmptyPrompt);
        }
        let stop_token: u32 = match self.stream.get_token(&self.stop_text) {
            Some(t) => t,
            None => {
                return Err(RunError::VocabularyLookup);
            },
        };
        let ghost codec = self.stream.codec();
        let ghost cfg = self.penalty;
        let ghost t0 = init_trace(self.model, self.sampler, prompt_tokens@);
        let ghost base = sink.content();
        self.stream.clear();
        let start_ms = clock_millis();
        let prompt_text: Vec<char> = match self.stream.tokenizer().decode(prompt_tokens) {
            Ok(t) => t,
            Err(_) => {
                proof {
                    lemma_prefix_concat(base, Seq::<char>::empty());
                    assert(base + Seq::<char>::empty() =~= base);
                }
                return Err(RunError::Decode);
            },
        };
        match sink.write(&prompt_text) {
            Ok(_) => {},
            Err(_) => {
                return Err(RunError::Sink);
            },
        }
        let mut tokens: Vec<u32> = prompt_tokens.clone();
        let mut generated: usize = 0;
        let mut pos: usize = 0;
        let mut stopped: bool = false;
        let mut index: usize = 0;
        let ghost mut tr: TraceState<M, S> = t0;
        proof {
            assert(base + prompt_text@ + tr.stream.emitted =~= base + prompt_text@);
            assert(tokens@ =~= prompt_tokens@);
        }
        while index < max_new_tokens && !stopped
            invariant
                index <= max_new_tokens,
                self.penalty == cfg,
                self.stop_text == old(self).stop_text,
                self.stream.codec() == codec,
                self.stream.wf(),
                tr == run_trace(codec, cfg, stop_token, t0, index as nat),
                self.model == tr.model,
                self.sampler == tr.sampler,
                self.stream@ == tr.stream,
                tokens@ == tr.hist,
                pos as int == tr.pos,
                generated as int == tr.generated,
                stopped == tr.stopped,
                !stopped ==> generated == index,
                generated <= index,
                tokens@.len() == prompt_tokens@.len() + generated,
                pos <= prompt_tokens@.len() + index,
                sink.content() == base + prompt_text@ + tr.stream.emitted,
            decreases max_new_tokens - index,
        {
            let ctx_len: usize = if index == 0 {
                tokens.len()
            } else {
                1
            };
            let start_w: usize = tokens.len() - ctx_len;
            let window: Vec<u32> = vec_range(&tokens, start_w, tokens.len());
            proof {
                if index == 0 {
                    assert(window@ =~= trace_window(tr));
                } else {
                    assert(window@ =~= trace_window(tr));
                }
            }
            let scores: Vec<i64> = match self.model.forward(&window, pos) {
                Ok(s) => s,
                Err(_) => {
                    proof {
                        lemma_prefix_concat(base, prompt_text@ + tr.stream.emitted);
                        assert(base + (prompt_text@ + tr.stream.emitted) =~= base + prompt_text@
                            + tr.stream.emitted);
                    }
                    return Err(RunError::ModelForward);
                },
            };
            let pscores: Vec<i64> = if self.penalty.factor_num == self.penalty.factor_den {
                proof {
                    lemma_penalized_identity(
                        scores@,
                        penalty_window(tr.hist, cfg.last_n as int),
                        cfg.factor_num as int,
                    );
                }
                scores
            } else {
                let start_p: usize = if tokens.len() >= self.penalty.last_n {
                    tokens.len() - self.penalty.last_n
                } else {
                    0
                };
                let pwin: Vec<u32> = vec_range(&tokens, start_p, tokens.len());
                proof {
                    assert(pwin@ =~= penalty_window(tr.hist, cfg.last_n as int));
                }
                apply_repeat_penalty(&scores, &pwin, &self.penalty)
            };
            proof {
                assert(pscores@ == step_scores(cfg, tr));
            }
            let next_tok: u32 = self.sampler.sample(&pscores);
            tokens.push(next_tok);
            generated = generated + 1;
            let ghost tr2 = trace_step(codec, cfg, stop_token, tr);
            if next_tok == stop_token {
                stopped = true;
            } else {
                match self.stream.next_token(next_tok) {
                    Ok(Some(f)) => {
                        proof {
                            assert(base + prompt_text@ + tr.stream.emitted + f@ =~= base
                                + prompt_text@ + (tr.stream.emitted + f@));
                        }
                        match sink.write(&f) {
                            Ok(_) => {},
                            Err(_) => {
                                proof {
                                    lemma_prefix_concat(base, prompt_text@ + tr.stream.emitted);
                                    assert(base + (prompt_text@ + tr.stream.emitted) =~= base
                                        + prompt_text@ + tr.stream.emitted);
                                }
                                return Err(RunError::Sink);
                            },
                        }
                    },
                    Ok(None) => {},
                    Err(_) => {
                        proof {
                            lemma_prefix_concat(base, prompt_text@ + tr.stream.emitted);
                            assert(base + (prompt_text@ + tr.stream.emitted) =~= base + prompt_text@
                                + tr.stream.emitted);
                        }
                        return Err(RunError::Decode);
                    },
                }
                pos = pos + ctx_len;
            }
            index = index + 1;
            proof {
                lemma_run_trace_unfold(codec, cfg, stop_token, t0, (index - 1) as nat);
                tr = tr2;
            }
        }
        proof {
            if stopped {
                lemma_run_trace_split(
                    codec,
                    cfg,
                    stop_token,
                    t0,
                    index as nat,
                    (max_new_tokens - index) as nat,
                );
            }
            assert(tr == run_trace(codec, cfg, stop_token, t0, max_new_tokens as nat));
        }
        let rest_opt: Option<Vec<char>> = match self.stream.decode_rest() {
            Ok(o) => o,
            Err(_) => {
                proof {
                    lemma_prefix_concat(base, prompt_text@ + tr.stream.emitted);
                    assert(base + (prompt_text@ + tr.stream.emitted) =~= base + prompt_text@
                        + tr.stream.emitted);
                }
                return Err(RunError::Decode);
            },
        };
        match rest_opt {
            Some(f) => {
                match sink.write(&f) {
                    Ok(_) => {},
                    Err(_) => {
                        proof {
                            lemma_prefix_concat(base, prompt_text@ + tr.stream.emitted);
                            assert(base + (prompt_text@ + tr.stream.emitted) =~= base + prompt_text@
                                + tr.stream.emitted);
                        }
                        return Err(RunError::Sink);
                    },
                }
            },
            None => {
                proof {
                    assert(base + prompt_text@ + tr.stream.emitted + stream_remainder(
                        codec,
                        tr.stream,
                    ) =~= base + prompt_text@ + tr.stream.emitted);
                }
            },
        }
        match sink.flush() {
            Ok(_) => {},
            Err(_) => {
                proof {
                    lemma_prefix_concat(
                        base,
                        prompt_text@ + tr.stream.emitted + stream_remainder(codec, tr.stream),
                    );
                    assert(base + (prompt_text@ + tr.stream.emitted + stream_remainder(
                        codec,
                        tr.stream,
                    )) =~= base + prompt_text@ + tr.stream.emitted + stream_remainder(
                        codec,
                        tr.stream,
                    ));
                }
                return Err(RunError::Sink);
            },
        }
        let end_ms = clock_millis();
        let elapsed: u64 = if end_ms >= start_ms {
            end_ms - start_ms
        } else {
            0
        };
        proof {
            lemma_run_trace_budget(codec, cfg, stop_token, t0, max_new_tokens as nat);
            assert(base + prompt_text@ + tr.stream.emitted + stream_remainder(codec, tr.stream)
                =~= base + (prompt_text@ + tr.stream.emitted + stream_remainder(codec, tr.stream)));
            assert(prompt_text@ + tr.stream.emitted + stream_remainder(codec, tr.stream)
                == run_output(
                codec,
                cfg,
                stop_token,
                old(self).model,
                old(self).sampler,
                prompt_tokens@,
                max_new_tokens as nat,
            ));
        }
        Ok(
            GenerationStats {
                generated_count: generated,
                elapsed_millis: elapsed,
                outcome: if stopped {
                    Outcome::Stopped
                } else {
                    Outcome::Exhausted
                },
            },
        )
    }
}

} // verus!
