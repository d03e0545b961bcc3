//! Core of a minimal document-rendering pipeline: style resolution,
//! block-box layout, display-list building and rasterization, together
//! with the document and stylesheet parsers that feed them.
//!
//! Geometry is measured in `Px` values: signed counts of tenths of a
//! pixel, so that the arithmetic of the box model is exact integer
//! arithmetic (see the `px` module).

#[allow(non_snake_case)]
pub mod ElementData;
#[allow(non_snake_case)]
pub mod NodeType;
pub mod css_parser;
pub mod element_data;
pub mod general_parser;
pub mod html_parser;
pub mod layout_tree_builder;
pub mod node;
pub mod node_type;
pub mod parse_error;
pub mod parser;
pub mod px;
pub mod render;
pub mod render_error;
pub mod str_map;
pub mod style_tree_builder;
pub mod text;
