//! A local classifier that guesses whether a prompt to a coding agent is
//! trivial, and learns from the user's answer to that guess.
//!
//! - `prompt`: what a submitted prompt asks for.
//! - `session`: the commands, as steps that a caller carries out; `protocol`
//!   is their model, and `laws` says what whole commands do.
//! - `commands`, `steps` and `promises`: what the commands, their steps and the
//!   functions give, said of their inputs and results alone.
//! - `model` and `report`: how the guesses are marked, and what is told of it.
//! - `store` and `dataset`: what is kept on disk, and where.
//! - `embed`: the embedding model.
//! - `single`: probabilities and embeddings, by their bit patterns.
//! - `id`, `json`, `text`, `error`: what the rest is built from.

pub mod commands;
pub mod dataset;
pub mod embed;
pub mod error;
pub mod id;
pub mod json;
pub mod laws;
pub mod model;
pub mod promises;
pub mod prompt;
pub mod protocol;
pub mod report;
pub mod session;
pub mod single;
pub mod steps;
pub mod store;
pub mod text;
