//! Document-tree nodes.

use vstd::prelude::*;
use crate::html_parser::element_data::ElementData;
use crate::html_parser::node_type::NodeType;
use crate::str_map::StrMap;

verus! {

/// One node of the document tree: a payload and ordered children.
pub struct Node {
    pub children: Vec<Node>,
    pub node_type: NodeType,
}

impl Node {
    /// Every element in this subtree has a well-formed attribute map.
    pub open spec fn wf(&self) -> bool
        decreases *self,
    {
        &&& match self.node_type {
            NodeType::Element(e) => e.wf(),
            NodeType::Text(_) => true,
        }
        &&& forall|i: int|
            0 <= i < self.children.len() ==> (#[trigger] self.children[i]).wf()
    }

    /// A childless text node.
    pub fn new_text(text: String) -> (r: Node)
        ensures
            r.children.len() == 0,
            r.node_type == NodeType::Text(text),
            r.wf(),
    {
        Node { children: Vec::new(), node_type: NodeType::Text(text) }
    }

    /// An element node with the given tag, attributes and children.
    pub fn new_element(tag_name: String, attributes: StrMap<String>, children: Vec<Node>) -> (r:
        Node)
        ensures
            r.children == children,
            r.node_type == NodeType::Element(
                ElementData { tag_name, attributes },
            ),
            (attributes.wf() && forall|i: int|
                0 <= i < children.len() ==> (#[trigger] children[i]).wf()) ==> r.wf(),
    {
        Node { children, node_type: NodeType::Element(ElementData::new(tag_name, attributes)) }
    }
}

} // verus!
