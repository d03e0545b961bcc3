//! The oldest draft of the element record kept for compatibility.

use vstd::prelude::*;
use crate::str_map::StrMap;

verus! {

/// An element's tag name and attributes.
pub struct ElementData {
    tag_name: String,
    attributes: StrMap<String>,
}

impl ElementData {
    /// The stored tag name.
    pub closed spec fn spec_tag_name(&self) -> Seq<char> {
        self.tag_name@
    }

    /// The stored attribute map.
    pub closed spec fn spec_attributes(&self) -> Map<Seq<char>, Seq<char>> {
        self.attributes@
    }

    /// Pack a tag name and attributes into an element.
    pub fn new(tag_name: String, attributes: StrMap<String>) -> (r: ElementData)
        ensures
            r.spec_tag_name() == tag_name@,
            r.spec_attributes() == attributes@,
    {
        ElementData { tag_name, attributes }
    }
}

} // verus!
