//! What one HTTP exchange came to, reduced to what decisions read.

use vstd::prelude::*;

verus! {

/// The outcome of one HTTP exchange. `B` is the form in which the body is
/// handed over: text, a JSON document, or text with what it denotes.
#[derive(Debug, PartialEq, Eq)]
pub enum Reply<B> {
    /// No response arrived: the request could not be sent or timed out.
    Unreachable,
    /// A response arrived. `body` is empty where the body could not be read
    /// in the form `B`.
    Received { status: u16, body: Option<B> },
}

/// Whether an HTTP status code reports success: the codes 200 to 299.
pub open spec fn is_success(status: u16) -> bool {
    200 <= status <= 299
}

/// Whether an HTTP status code reports success.
pub fn status_is_success(status: u16) -> (success: bool)
    ensures
        success == is_success(status),
{
    200 <= status && status < 300
}

} // verus!
