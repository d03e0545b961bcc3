//! An earlier draft of the document node kept for compatibility; the
//! document parser uses the one under the parser module.

use vstd::prelude::*;
use crate::element_data::ElementData;
use crate::node_type::NodeType;
use crate::str_map::StrMap;

verus! {

/// One node of the document tree: a payload and ordered children.
pub struct Node {
    children: Vec<Node>,
    node_type: NodeType,
}

impl Node {
    /// The number of direct children.
    pub closed spec fn spec_child_count(&self) -> nat {
        self.children.len() as nat
    }

    /// Whether this node is a text leaf.
    pub closed spec fn spec_is_text(&self) -> bool {
        self.node_type is Text
    }

    /// A childless text node.
    pub fn new_text(text: String) -> (r: Node)
        ensures
            r.spec_child_count() == 0,
            r.spec_is_text(),
    {
        Node { children: Vec::new(), node_type: NodeType::Text(text) }
    }

    /// An element node with the given tag, attributes and children.
    pub fn new_element(tag_name: String, attributes: StrMap<String>, children: Vec<Node>) -> (r:
        Node)
        ensures
            r.spec_child_count() == children.len(),
            !r.spec_is_text(),
    {
        Node { children, node_type: NodeType::Element(ElementData::new(tag_name, attributes)) }
    }
}

} // verus!
