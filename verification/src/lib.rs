//! Retrieval and normalization of scientific abstracts.
//!
//! The pipeline has four stages: fetch a page, extract the text of the
//! element carrying the `abstract` marker class, normalize that text, and
//! optionally decode a summary returned by a remote summarization service.
//! This crate holds the stages that compute: extraction, normalization and
//! summary decoding, each with a verified contract. The network calls
//! themselves live outside the library and hand plain strings in and out.

mod strutil;
pub mod errors;
pub mod extract;
pub mod summary;
pub mod text;
