//! An ordered sequence of style rules; source order is the cascade's
//! tie-break.

use vstd::prelude::*;
use crate::css_parser::rule::Rule;
use crate::css_parser::rule::RuleModel;
use crate::css_parser::rule::spec_rule_text;
use vstd::string::StrSliceExecFns;

verus! {

/// A whole stylesheet, rules in source order.
#[derive(Debug)]
pub struct Stylesheet {
    pub rules: Vec<Rule>,
}

impl View for Stylesheet {
    type V = Seq<RuleModel>;

    open spec fn view(&self) -> Seq<RuleModel> {
        self.rules@.map_values(|r: Rule| r@)
    }
}

/// The rules from index `i` on, each followed by a newline.
pub open spec fn spec_rules_folded(rules: Seq<Rule>, i: int) -> Seq<char>
    decreases rules.len() - i,
{
    if i < 0 || i >= rules.len() {
        Seq::empty()
    } else {
        spec_rule_text(rules[i]) + "\n"@ + spec_rules_folded(rules, i + 1)
    }
}

/// The text of a stylesheet: its rules on separate lines, without a
/// trailing newline.
pub open spec fn spec_stylesheet_text(s: Stylesheet) -> Seq<char> {
    let folded = spec_rules_folded(s.rules@, 0);
    folded.take(folded.len() - 1)
}

impl Stylesheet {
    /// Render the stylesheet as text, one rule per line.
    pub fn to_text(&self) -> (r: String)
        requires
            self.rules.len() > 0,
            forall|i: int| 0 <= i < self.rules.len() ==> (#[trigger] self.rules[i]).selectors.len() > 0,
        ensures
            r@ == spec_stylesheet_text(*self),
    {
        let mut folded = "".to_owned();
        proof {
            reveal_strlit("");
        }
        let n = self.rules.len();
        let mut i: usize = 0;
        while i < n
            invariant
                i <= n,
                n == self.rules.len(),
                forall|j: int|
                    0 <= j < self.rules.len() ==> (#[trigger] self.rules[j]).selectors.len() > 0,
                folded@ + spec_rules_folded(self.rules@, i as int) == spec_rules_folded(
                    self.rules@,
                    0,
                ),
                folded@.len() >= i,
            decreases n - i,
        {
            folded.append(self.rules[i].to_text().as_str());
            folded.append("\n");
            proof {
                reveal_strlit("\n");
                assert(folded@ + spec_rules_folded(self.rules@, i + 1) =~= spec_rules_folded(
                    self.rules@,
                    0,
                ));
            }
            i = i + 1;
        }
        proof {
            assert(folded@ =~= folded@ + spec_rules_folded(self.rules@, n as int));
            assert(folded@ == spec_rules_folded(self.rules@, 0));
        }
        let fl = folded.as_str().unicode_len();
        let r = folded.as_str().substring_char(0, fl - 1).to_owned();
        proof {
            assert(r@ =~= spec_stylesheet_text(*self));
        }
        r
    }
}

} // verus!
