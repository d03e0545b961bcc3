//! Units a length declaration can carry. Only pixels are supported.

use vstd::prelude::*;

verus! {

/// The unit of a length value.
#[derive(Clone, Copy, Debug, PartialEq, Eq, Structural)]
pub enum LengthUnit {
    Px,
}

impl LengthUnit {
    /// Render the unit's name.
    pub fn to_text(&self) -> (r: String)
        ensures
            r@ == "px"@,
    {
        "px".to_owned()
    }
}

} // verus!
