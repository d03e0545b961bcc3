//! Solid colors, one byte per channel.

use vstd::prelude::*;
use crate::text::spec_dec;
use crate::text::u64_to_string;

verus! {

/// An RGBA color, each channel in 0..=255.
#[derive(Clone, Copy, Debug, PartialEq, Eq, Structural)]
pub struct ColorValue {
    pub r: u8,
    pub g: u8,
    pub b: u8,
    pub a: u8,
}

/// The text of a color: `rgba(r, g, b, a)` with decimal channels.
pub open spec fn spec_color_text(c: ColorValue) -> Seq<char> {
    "rgba("@ + spec_dec(c.r as int) + ", "@ + spec_dec(c.g as int) + ", "@ + spec_dec(c.b as int)
        + ", "@ + spec_dec(c.a as int) + ")"@
}

impl ColorValue {
    /// Render the color as `rgba(r, g, b, a)`.
    pub fn to_text(&self) -> (r: String)
        ensures
            r@ == spec_color_text(*self),
    {
        let mut s = "rgba(".to_owned();
        s.append(u64_to_string(self.r as u64).as_str());
        s.append(", ");
        s.append(u64_to_string(self.g as u64).as_str());
        s.append(", ");
        s.append(u64_to_string(self.b as u64).as_str());
        s.append(", ");
        s.append(u64_to_string(self.a as u64).as_str());
        s.append(")");
        proof {
            assert(s@ =~= spec_color_text(*self));
        }
        s
    }
}

} // verus!
