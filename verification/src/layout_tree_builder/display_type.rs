//! How an element asks to be displayed.

use vstd::prelude::*;

verus! {

/// The supported values of the `display` property. `Hidden` is the
/// CSS keyword `none`: the element and its subtree produce no box.
#[derive(Clone, Copy, Debug, PartialEq, Eq, Structural)]
pub enum DisplayType {
    Block,
    Inline,
    Hidden,
}

} // verus!
