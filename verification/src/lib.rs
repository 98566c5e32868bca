//! Answers questions about a database schema with the help of a language
//! model: the tables that fit a question are retrieved from a vector index
//! and handed to the model together with the question.
//!
//! This library holds the decisions of that service and proves them: how the
//! retrieved rows are ranked ([`index`]), how the prompt is put together
//! ([`prompt`]), what is sent to the model and how its reply is read
//! ([`llm`]), and the order of the stages that a question goes through
//! ([`pipeline`]). It does no I/O. JSON text is read and written by
//! `serde_json`, behind the contracts of [`codec`].

pub mod codec;
pub mod index;
pub mod json;
pub mod llm;
pub mod number;
pub mod pipeline;
pub mod prompt;
