//! The primitive draw commands the rasterizer executes.

use vstd::prelude::*;
use crate::css_parser::color_value::ColorValue;
use crate::layout_tree_builder::dimensions::Rectangle;

verus! {

/// One draw command: fill a rectangle with a solid color.
#[derive(Clone, Copy, Debug, PartialEq, Eq, Structural)]
pub enum DisplayCommand {
    SolidColor(ColorValue, Rectangle),
}

} // verus!
