//! Core logic of a small local LLM inference engine: model-folder resolution,
//! chat templates, stop sequences and streamed output.
pub mod device;
pub mod engine;
pub mod error;
pub mod generation;
pub mod loader;
pub mod order;
pub mod paths;
pub mod stats;
pub mod stopping;
pub mod text;
pub mod tokenizer;
pub mod chat;
pub mod token_stream;
pub mod cli;
pub mod backend;
pub mod sampling;
