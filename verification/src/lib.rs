//! Autoregressive text-generation core: a generation loop that drives a
//! sequence model one token at a time, applies repetition-penalty and
//! sampling policy, and streams decoded text to a sink as soon as each
//! token's contribution stabilizes.

pub mod ai_backend;
pub mod codec;
pub mod command;
pub mod model;
pub mod penalty;
pub mod sampler;
pub mod settings;
pub mod sink;
pub mod text_generation;
pub mod token_output_stream;
pub mod vecs;
