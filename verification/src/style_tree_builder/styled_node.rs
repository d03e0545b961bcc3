//! The styled tree: one resolved property set per document node.

use vstd::prelude::*;
use crate::css_parser::declaration_value::DeclarationValue;
use crate::css_parser::declaration_value::ValueModel;
use crate::layout_tree_builder::display_type::DisplayType;
use crate::render_error::RenderError;
use crate::str_map::StrMap;

verus! {

broadcast use vstd::std_specs::vec::axiom_vec_index_decreases;

/// The mathematical content of a styled node: its winning property
/// values and its styled children, mirroring the document tree.
pub struct StyledModel {
    pub props: Map<Seq<char>, ValueModel>,
    pub children: Seq<StyledModel>,
}

/// A node of the styled tree: the resolved properties of one document
/// node plus the styled children in document order.
pub struct StyledNode {
    pub css_properties: StrMap<DeclarationValue>,
    pub children: Vec<StyledNode>,
}

impl View for StyledNode {
    type V = StyledModel;

    open spec fn view(&self) -> StyledModel
        decreases *self,
    {
        StyledModel {
            props: self.css_properties@,
            children: Seq::new(
                self.children.len() as nat,
                |i: int|
                    if 0 <= i < self.children.len() {
                        self.children[i]@
                    } else {
                        StyledModel { props: Map::empty(), children: Seq::empty() }
                    },
            ),
        }
    }
}

/// What the `display` property resolves to, given a property map:
/// `inline` when absent or not a keyword, the matching kind for the
/// keywords `block`, `inline` and `none`, and a fatal error for any
/// other keyword.
pub open spec fn spec_display_value(props: Map<Seq<char>, ValueModel>) -> Result<
    DisplayType,
    RenderError,
> {
    if props.contains_key("display"@) {
        match props["display"@] {
            ValueModel::Keyword(k) => if k == "block"@ {
                Ok(DisplayType::Block)
            } else if k == "inline"@ {
                Ok(DisplayType::Inline)
            } else if k == "none"@ {
                Ok(DisplayType::Hidden)
            } else {
                Err(RenderError::UnsupportedDisplay)
            },
            _ => Ok(DisplayType::Inline),
        }
    } else {
        Ok(DisplayType::Inline)
    }
}

impl StyledNode {
    /// The property maps of this subtree are all well formed.
    pub open spec fn wf(&self) -> bool
        decreases *self,
    {
        &&& self.css_properties.wf()
        &&& forall|i: int| 0 <= i < self.children.len() ==> (#[trigger] self.children[i]).wf()
    }

    /// The winning value for a property, if the cascade produced one.
    pub fn get_css_value_by_name(&self, css_name: String) -> (r: Option<&DeclarationValue>)
        requires
            self.css_properties.wf(),
        ensures
            match r {
                Some(v) => self@.props.contains_key(css_name@) && v@ == self@.props[css_name@],
                None => !self@.props.contains_key(css_name@),
            },
    {
        self.css_properties.get(css_name.as_str())
    }

    /// How this node displays: `block`, `inline` or not at all, or a
    /// fatal error for an unsupported `display` keyword.
    pub fn get_display_value(&self) -> (r: Result<DisplayType, RenderError>)
        requires
            self.css_properties.wf(),
        ensures
            r == spec_display_value(self@.props),
    {
        match self.css_properties.get("display") {
            Some(v) => match v {
                DeclarationValue::Keyword(k) => {
                    if crate::text::str_eq(k.as_str(), "block") {
                        Ok(DisplayType::Block)
                    } else if crate::text::str_eq(k.as_str(), "inline") {
                        Ok(DisplayType::Inline)
                    } else if crate::text::str_eq(k.as_str(), "none") {
                        Ok(DisplayType::Hidden)
                    } else {
                        Err(RenderError::UnsupportedDisplay)
                    }
                },
                _ => Ok(DisplayType::Inline),
            },
            None => Ok(DisplayType::Inline),
        }
    }
}

} // verus!
