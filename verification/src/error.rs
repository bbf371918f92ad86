//! Error variants.
use vstd::prelude::*;

verus! {

/// An error that occurs when a string cannot be parsed.
#[derive(Clone, Copy, Debug, PartialEq, Eq, Structural)]
pub enum ParseError {
    /// A token was outside an expected range.
    ErroneousToken,
    /// Expected a token but found nothing.
    ExpectedToken,
    /// Expected a different token.
    InvalidToken,
}

} // verus!
