//! Core of a text-driven code-question agent: the command micro-language the
//! model writes, the segmenter that turns a raw completion into transcript
//! messages, the outcome rules of one round, and the compactor that hides
//! stale steering prompts.  All logic here is verified; network collaborators
//! (model completion, code search, file read, symbol definition) stay outside
//! and hand these functions plain values.

pub mod agent;
pub mod command;
pub mod consts;
pub mod message;
pub mod segment;
pub mod sourcegraph;
pub mod types;
pub mod text;
