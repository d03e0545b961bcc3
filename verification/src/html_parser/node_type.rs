//! What a document node is: a text leaf or an element.

use vstd::prelude::*;
use crate::html_parser::element_data::ElementData;

verus! {

/// The payload of a document node.
pub enum NodeType {
    Text(String),
    Element(ElementData),
}

} // verus!
