//! The kinds of box the layout tree holds.

use vstd::prelude::*;

verus! {

/// A box is block-level, inline-level, or an anonymous wrapper
/// grouping a run of inline boxes inside a block container.
#[derive(Clone, Copy, Debug, PartialEq, Eq, Structural)]
pub enum BoxType {
    Block,
    Inline,
    Anonymous,
}

} // verus!
