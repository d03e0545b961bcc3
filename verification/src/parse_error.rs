//! The ways parsing a document or a stylesheet can fail.

use vstd::prelude::*;

verus! {

/// A malformed input was handed to one of the parsers.
#[derive(Clone, Copy, Debug, PartialEq, Eq, Structural)]
pub enum ParseError {
    /// The text ended where more input was required.
    UnexpectedEnd,
    /// A character other than the expected one was found.
    UnexpectedChar,
    /// An element's closing tag does not match its opening tag.
    MismatchedClosingTag,
    /// A length declaration carries a unit other than `px`.
    InvalidUnit,
    /// A color declaration does not hold six hexadecimal digits.
    InvalidColor,
}

} // verus!
