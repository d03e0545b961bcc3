//! Box geometry: a content rectangle and the three edge quadruples.
//!
//! The derived padding, border and margin boxes are always computed
//! from the content rectangle and the edges, never stored.

use vstd::prelude::*;
use crate::px::Px;
use crate::px::sadd;
use crate::px::spec_sadd;
use crate::px::spec_ssub;
use crate::px::ssub;

verus! {

/// An axis-aligned rectangle in `Px` units.
#[derive(Clone, Copy, Debug, PartialEq, Eq, Structural)]
pub struct Rectangle {
    pub x: Px,
    pub y: Px,
    pub width: Px,
    pub height: Px,
}

/// Edge thicknesses on the four sides, in `Px` units.
#[derive(Clone, Copy, Debug, PartialEq, Eq, Structural)]
pub struct Size {
    pub top: Px,
    pub bottom: Px,
    pub left: Px,
    pub right: Px,
}

/// A box's geometry: its content rectangle plus padding, border and
/// margin edges.
#[derive(Clone, Copy, Debug, PartialEq, Eq, Structural)]
pub struct Dimensions {
    pub content_area: Rectangle,
    pub padding: Size,
    pub margin: Size,
    pub border: Size,
}

/// The all-zero rectangle.
pub open spec fn spec_zero_rectangle() -> Rectangle {
    Rectangle { x: 0, y: 0, width: 0, height: 0 }
}

/// The all-zero edge quadruple.
pub open spec fn spec_zero_size() -> Size {
    Size { top: 0, bottom: 0, left: 0, right: 0 }
}

/// The all-zero geometry.
pub open spec fn spec_zero_dimensions() -> Dimensions {
    Dimensions {
        content_area: spec_zero_rectangle(),
        padding: spec_zero_size(),
        margin: spec_zero_size(),
        border: spec_zero_size(),
    }
}

/// The rectangle grown outward on each side by the given edges, with
/// saturating arithmetic.
pub open spec fn spec_expanded_by(r: Rectangle, s: Size) -> Rectangle {
    Rectangle {
        x: spec_ssub(r.x as int, s.left as int) as Px,
        y: spec_ssub(r.y as int, s.top as int) as Px,
        width: spec_sadd(spec_sadd(r.width as int, s.left as int), s.right as int) as Px,
        height: spec_sadd(spec_sadd(r.height as int, s.top as int), s.bottom as int) as Px,
    }
}

/// The padding box of a geometry: content expanded by padding.
pub open spec fn spec_padding_box(d: Dimensions) -> Rectangle {
    spec_expanded_by(d.content_area, d.padding)
}

/// The border box: the padding box expanded by the border.
pub open spec fn spec_border_box(d: Dimensions) -> Rectangle {
    spec_expanded_by(spec_padding_box(d), d.border)
}

/// The margin box: the border box expanded by the margin.
pub open spec fn spec_margin_box(d: Dimensions) -> Rectangle {
    spec_expanded_by(spec_border_box(d), d.margin)
}

impl Default for Rectangle {
    /// The all-zero rectangle.
    fn default() -> (r: Rectangle)
        ensures
            r == spec_zero_rectangle(),
    {
        Rectangle { x: 0, y: 0, width: 0, height: 0 }
    }
}

impl Default for Size {
    /// The all-zero edge quadruple.
    fn default() -> (r: Size)
        ensures
            r == spec_zero_size(),
    {
        Size { top: 0, bottom: 0, left: 0, right: 0 }
    }
}

impl Default for Dimensions {
    /// The all-zero geometry.
    fn default() -> (r: Dimensions)
        ensures
            r == spec_zero_dimensions(),
    {
        Dimensions {
            content_area: Rectangle::default(),
            padding: Size::default(),
            margin: Size::default(),
            border: Size::default(),
        }
    }
}

impl Rectangle {
    /// Grow the rectangle outward by the given edges.
    pub fn expanded_by(&self, size: &Size) -> (r: Rectangle)
        ensures
            r == spec_expanded_by(*self, *size),
    {
        Rectangle {
            x: ssub(self.x, size.left),
            y: ssub(self.y, size.top),
            width: sadd(sadd(self.width, size.left), size.right),
            height: sadd(sadd(self.height, size.top), size.bottom),
        }
    }
}

impl Dimensions {
    /// The content rectangle expanded by the padding.
    pub fn padding_box(&self) -> (r: Rectangle)
        ensures
            r == spec_padding_box(*self),
    {
        self.content_area.expanded_by(&self.padding)
    }

    /// The padding box expanded by the border.
    pub fn border_box(&self) -> (r: Rectangle)
        ensures
            r == spec_border_box(*self),
    {
        self.padding_box().expanded_by(&self.border)
    }

    /// The border box expanded by the margin.
    pub fn margin_box(&self) -> (r: Rectangle)
        ensures
            r == spec_margin_box(*self),
    {
        self.border_box().expanded_by(&self.margin)
    }
}

} // verus!
