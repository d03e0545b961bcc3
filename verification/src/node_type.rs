//! An earlier draft of the node payload kept for compatibility.

use vstd::prelude::*;
use crate::element_data::ElementData;

verus! {

/// The payload of a document node: a text leaf or an element.
pub enum NodeType {
    Text(String),
    Element(ElementData),
}

} // verus!
