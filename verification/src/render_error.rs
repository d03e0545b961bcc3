//! The fatal conditions that abort a render pass.

use vstd::prelude::*;

verus! {

/// A fatal configuration or contract error; no partial result is
/// produced once one arises.
#[derive(Clone, Copy, Debug, PartialEq, Eq, Structural)]
pub enum RenderError {
    /// The `display` property held a keyword other than `block`,
    /// `inline` or `none`.
    UnsupportedDisplay,
    /// The tree root resolved to `display: none`, leaving nothing to
    /// lay out.
    RootDisplayNone,
    /// Layout was requested for a box kind it is not implemented for.
    UnsupportedBoxKind,
    /// A block box reached layout without an attached styled node.
    MissingStyledNode,
    /// A value that is neither a length nor `auto` was used where a
    /// number is required.
    NonNumericValue,
}

} // verus!
