//! Backends that can answer one prompt: the capability the command layer
//! invokes, together with the pure decisions the backends rest on — which
//! text a streamed converse event contributes, and which model repository,
//! revision and weight file a local model uses by default.

use vstd::prelude::*;

verus! {

/// A backend failed to produce a response; the message says why.
#[derive(Debug)]
pub struct BackendError {
    pub message: String,
}

/// Anything that can answer one prompt with one response.
pub trait AiBackend {
    fn invoke(&self, prompt: String) -> Result<String, BackendError>;
}

/// Which local model family to load.
#[derive(Clone, Copy, Debug, PartialEq, Eq, Structural)]
pub enum WhichModel {
    V2,
    V3,
}

/// One event of a streamed converse response, modeled as plain values: a
/// content delta carries its text (when the delta is textual), every other
/// event is a marker that contributes nothing.
pub enum ConverseEvent {
    ContentBlockDelta(Option<String>),
    MessageStart,
    MessageStop,
    Metadata,
    ContentBlockStart,
    ContentBlockStop,
    Other,
}

/// The text a converse event contributes to the response.
pub open spec fn converse_event_text(e: ConverseEvent) -> Seq<char> {
    match e {
        ConverseEvent::ContentBlockDelta(Some(s)) => s@,
        _ => Seq::empty(),
    }
}

/// The visible text of one streamed converse event: the delta's text, or
/// nothing for the start/stop/metadata markers.
pub fn get_converse_output_text(output: ConverseEvent) -> (r: String)
    ensures
        r@ == converse_event_text(output),
{
    match output {
        ConverseEvent::ContentBlockDelta(Some(s)) => s,
        _ => String::new(),
    }
}

/// The model repository a local model is pulled from when the settings name
/// none: the quantized bundle, or the model family's own repository.
pub fn default_model_id(quantized: bool, model: WhichModel) -> (r: &'static str)
    ensures
        quantized ==> r@ == "lmz/candle-quantized-phi"@,
        !quantized && model == WhichModel::V2 ==> r@ == "microsoft/phi-2"@,
        !quantized && model == WhichModel::V3 ==> r@ == "microsoft/Phi-3-mini-4k-instruct"@,
{
    if quantized {
        "lmz/candle-quantized-phi"
    } else {
        match model {
            WhichModel::V2 => "microsoft/phi-2",
            WhichModel::V3 => "microsoft/Phi-3-mini-4k-instruct",
        }
    }
}

/// The repository revision used when the settings name none.
pub fn default_revision(quantized: bool, model: WhichModel) -> (r: &'static str)
    ensures
        r@ == "main"@,
{
    let _ = quantized;
    let _ = model;
    "main"
}

/// The bundled weight file of a quantized model; quantized V3 is not
/// supported.
pub fn quantized_weight_file(model: WhichModel) -> (r: Option<&'static str>)
    ensures
        model == WhichModel::V2 ==> (r matches Some(f) && f@ == "model-v2-q4k.gguf"@),
        model == WhichModel::V3 ==> r is None,
{
    match model {
        WhichModel::V2 => Some("model-v2-q4k.gguf"),
        WhichModel::V3 => None,
    }
}

} // verus!
