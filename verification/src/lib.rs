//! A verified recovery pipeline for advisory documents produced by a remote
//! text-generation service.
//!
//! The service streams its answer as byte chunks over a line-oriented event
//! transport; once assembled, the text may wrap its JSON payload in prose or
//! markdown fences, truncate it, or nest whole sections under the wrong
//! parent. This crate reconstructs the text from the chunk stream, extracts
//! the balanced JSON span, repairs the structure, and always hands back a
//! document — a synthesized fallback when nothing better can be recovered.
pub mod advisor;
pub mod client;
pub mod document;
pub mod errors;
pub mod extract;
pub mod json;
pub mod parse;
pub mod pipeline;
pub mod prompt;
pub mod sanitize;
pub mod stream;
pub mod text;
