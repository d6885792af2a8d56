//! The error taxonomy of the pipeline.

use vstd::prelude::*;

verus! {

/// A pipeline failure. The set is closed: every stage reports one of these
/// kinds, and the run stops at the first of them.
#[derive(Debug)]
pub enum GistError {
    /// A transport-level failure while contacting the source page or the
    /// summarization endpoint, or a malformed JSON response body; carries
    /// the rendered underlying cause.
    FetchError(String),
    /// The fetched document holds no element carrying the `abstract`
    /// marker class.
    AbstractNotFound,
    /// The hardcoded structural query could not be parsed; carries a
    /// diagnostic string.
    ParseError(String),
    /// The summarization endpoint answered without a usable string field
    /// named `summary`.
    SummaryNotFound,
    /// A local input/output failure; carries the rendered underlying cause.
    IoError(String),
}

} // verus!
