//! The request rules, text handling, model-provider protocol and
//! conversation-turn logic of a chat backend, verified with Verus.
//!
//! - `models`: roles, messages, conversations, and the validation of
//!   requests.
//! - `routes`: the conversation turn (a user's message and the model's
//!   answer) as a state machine, and the reading of request paths.
//! - `sse`: the decoding of the model's event stream.
//! - `openrouter`: the provider's messages, errors and replies.
//! - `db`: the decoding of stored rows and the titling rule.
//! - `config`: the reading of the configuration.
//! - `text`: white space, trimming, words, titles and decimal numbers.
//! - `interop`: the calls into other crates.
pub mod config;
pub mod db;
pub mod error;
pub mod interop;
pub mod models;
pub mod openrouter;
pub mod routes;
pub mod sse;
pub mod text;
