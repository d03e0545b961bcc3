//! A single `name: value` style declaration.

use vstd::prelude::*;
use crate::css_parser::declaration_value::DeclarationValue;
use crate::css_parser::declaration_value::ValueModel;
use crate::css_parser::declaration_value::spec_value_text;

verus! {

/// One property declaration inside a rule.
#[derive(Debug)]
pub struct Declaration {
    pub name: String,
    pub value: DeclarationValue,
}

impl View for Declaration {
    type V = (Seq<char>, ValueModel);

    open spec fn view(&self) -> (Seq<char>, ValueModel) {
        (self.name@, self.value@)
    }
}

/// The text of a declaration: `name: value`.
pub open spec fn spec_declaration_text(d: Declaration) -> Seq<char> {
    d.name@ + ": "@ + spec_value_text(d.value)
}

impl Declaration {
    /// Render the declaration as `name: value`.
    pub fn to_text(&self) -> (r: String)
        ensures
            r@ == spec_declaration_text(*self),
    {
        let mut s = self.name.clone();
        s.append(": ");
        s.append(self.value.to_text().as_str());
        proof {
            assert(s@ =~= spec_declaration_text(*self));
        }
        s
    }
}

} // verus!
