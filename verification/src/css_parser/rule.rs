//! A style rule: selectors and the declarations they carry.

use vstd::prelude::*;
use crate::css_parser::declaration::Declaration;
use crate::css_parser::declaration_value::ValueModel;
use crate::css_parser::selector::Selector;
use crate::css_parser::selector::SelectorModel;
use crate::css_parser::declaration::spec_declaration_text;
use crate::css_parser::selector::spec_selector_text;
use vstd::string::StrSliceExecFns;

verus! {

/// The mathematical content of a rule.
pub struct RuleModel {
    pub selectors: Seq<SelectorModel>,
    pub declarations: Seq<(Seq<char>, ValueModel)>,
}

/// A rule: an ordered selector list (stored sorted ascending by
/// specificity) and an ordered declaration list.
#[derive(Debug)]
pub struct Rule {
    pub selectors: Vec<Selector>,
    pub declarations: Vec<Declaration>,
}

impl View for Rule {
    type V = RuleModel;

    open spec fn view(&self) -> RuleModel {
        RuleModel {
            selectors: self.selectors@.map_values(|s: Selector| s@),
            declarations: self.declarations@.map_values(|d: Declaration| d@),
        }
    }
}

/// The selectors from index `i` on, each followed by a comma and a
/// space.
pub open spec fn spec_selectors_folded(sels: Seq<Selector>, i: int) -> Seq<char>
    decreases sels.len() - i,
{
    if i < 0 || i >= sels.len() {
        Seq::empty()
    } else {
        spec_selector_text(sels[i]) + ", "@ + spec_selectors_folded(sels, i + 1)
    }
}

/// The declarations from index `i` on, each followed by a semicolon
/// and a space.
pub open spec fn spec_declarations_folded(decls: Seq<Declaration>, i: int) -> Seq<char>
    decreases decls.len() - i,
{
    if i < 0 || i >= decls.len() {
        Seq::empty()
    } else {
        spec_declaration_text(decls[i]) + "; "@ + spec_declarations_folded(decls, i + 1)
    }
}

/// The text of a rule: the comma-separated selector list (the
/// trailing separator dropped), then the declaration block.
pub open spec fn spec_rule_text(r: Rule) -> Seq<char> {
    let sels = spec_selectors_folded(r.selectors@, 0);
    sels.take(sels.len() - 2) + " { "@ + spec_declarations_folded(r.declarations@, 0) + "}"@
}

impl Rule {
    /// Render the rule as stylesheet text.
    pub fn to_text(&self) -> (r: String)
        requires
            self.selectors.len() > 0,
        ensures
            r@ == spec_rule_text(*self),
    {
        let mut sels = "".to_owned();
        proof {
            reveal_strlit("");
        }
        let n = self.selectors.len();
        let mut i: usize = 0;
        while i < n
            invariant
                i <= n,
                n == self.selectors.len(),
                sels@ + spec_selectors_folded(self.selectors@, i as int) == spec_selectors_folded(
                    self.selectors@,
                    0,
                ),
                i > 0 ==> sels@.len() >= 2,
                sels@.len() >= 2 * i,
            decreases n - i,
        {
            sels.append(self.selectors[i].to_text().as_str());
            sels.append(", ");
            proof {
                reveal_strlit(", ");
                assert(sels@ + spec_selectors_folded(self.selectors@, i + 1)
                    =~= spec_selectors_folded(self.selectors@, 0));
            }
            i = i + 1;
        }
        proof {
            assert(sels@ =~= sels@ + spec_selectors_folded(self.selectors@, n as int));
            assert(sels@ == spec_selectors_folded(self.selectors@, 0));
        }
        let sl = sels.as_str().unicode_len();
        let mut s = sels.as_str().substring_char(0, sl - 2).to_owned();
        s.append(" { ");
        let dn = self.declarations.len();
        let ghost head = s@;
        let mut d: usize = 0;
        while d < dn
            invariant
                d <= dn,
                dn == self.declarations.len(),
                s@ + spec_declarations_folded(self.declarations@, d as int) == head
                    + spec_declarations_folded(self.declarations@, 0),
            decreases dn - d,
        {
            s.append(self.declarations[d].to_text().as_str());
            s.append("; ");
            proof {
                reveal_strlit("; ");
                assert(s@ + spec_declarations_folded(self.declarations@, d + 1) =~= head
                    + spec_declarations_folded(self.declarations@, 0));
            }
            d = d + 1;
        }
        s.append("}");
        proof {
            assert(head =~= spec_selectors_folded(self.selectors@, 0).take(
                spec_selectors_folded(self.selectors@, 0).len() - 2,
            ) + " { "@);
            assert(s@ =~= spec_rule_text(*self));
        }
        s
    }
}

} // verus!
