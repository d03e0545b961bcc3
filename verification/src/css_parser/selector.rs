//! Selectors and their specificity.

use vstd::prelude::*;

verus! {

/// What a selector asks of an element: an optional tag name, an
/// optional id, and a set of required class names.
pub struct SelectorModel {
    pub tag_name: Option<Seq<char>>,
    pub id: Option<Seq<char>>,
    pub classes: Seq<Seq<char>>,
}

/// A simple selector: optional tag constraint, optional id constraint,
/// and required class names.
#[derive(Debug)]
pub struct Selector {
    pub tag_name: Option<String>,
    pub id: Option<String>,
    pub classes: Vec<String>,
}

impl View for Selector {
    type V = SelectorModel;

    open spec fn view(&self) -> SelectorModel {
        SelectorModel {
            tag_name: match self.tag_name {
                Some(t) => Some(t@),
                None => None,
            },
            id: match self.id {
                Some(i) => Some(i@),
                None => None,
            },
            classes: self.classes.deep_view(),
        }
    }
}

/// The specificity of a selector: one point for an id constraint, the
/// number of class constraints, and one point for a tag constraint,
/// compared lexicographically in that order.
pub open spec fn spec_specificity(s: SelectorModel) -> (int, int, int) {
    (
        if s.id is Some {
            1int
        } else {
            0int
        },
        s.classes.len() as int,
        if s.tag_name is Some {
            1int
        } else {
            0int
        },
    )
}

/// Lexicographic order on specificity triples: `a` at most `b`.
pub open spec fn spec_lex_le(a: (int, int, int), b: (int, int, int)) -> bool {
    a.0 < b.0 || (a.0 == b.0 && (a.1 < b.1 || (a.1 == b.1 && a.2 <= b.2)))
}

/// Specificity compares as a total order: any two triples are
/// comparable, mutual order means equality, and the order is
/// transitive.
pub proof fn lemma_specificity_total_order(a: (int, int, int), b: (int, int, int), c: (int, int, int))
    ensures
        spec_lex_le(a, b) || spec_lex_le(b, a),
        spec_lex_le(a, b) && spec_lex_le(b, a) ==> a == b,
        spec_lex_le(a, b) && spec_lex_le(b, c) ==> spec_lex_le(a, c),
        spec_lex_le(a, a),
{
}

impl Selector {
    /// The specificity triple (has-id, class-count, has-tag) of this
    /// selector.
    pub fn get_specificity(&self) -> (r: (usize, usize, usize))
        ensures
            (r.0 as int, r.1 as int, r.2 as int) == spec_specificity(self@),
    {
        let has_id: usize = if self.id.is_some() {
            1
        } else {
            0
        };
        let has_tag: usize = if self.tag_name.is_some() {
            1
        } else {
            0
        };
        (has_id, self.classes.len(), has_tag)
    }
}

/// Exec comparison of two specificity triples: whether `a` is
/// lexicographically at most `b`.
pub fn specificity_le(a: (usize, usize, usize), b: (usize, usize, usize)) -> (r: bool)
    ensures
        r == spec_lex_le(
            (a.0 as int, a.1 as int, a.2 as int),
            (b.0 as int, b.1 as int, b.2 as int),
        ),
{
    a.0 < b.0 || (a.0 == b.0 && (a.1 < b.1 || (a.1 == b.1 && a.2 <= b.2)))
}

/// The text of the class constraints from index `i` on: each
/// prefixed with a dot.
pub open spec fn spec_classes_text(cs: Seq<String>, i: int) -> Seq<char>
    decreases cs.len() - i,
{
    if i < 0 || i >= cs.len() {
        Seq::empty()
    } else {
        "."@ + cs[i]@ + spec_classes_text(cs, i + 1)
    }
}

/// The text of a selector: its tag name, `#` and its id, and a
/// dot-prefixed class list, each part only when present.
pub open spec fn spec_selector_text(s: Selector) -> Seq<char> {
    (match s.tag_name {
        Some(t) => t@,
        None => Seq::empty(),
    }) + (match s.id {
        Some(i) => "#"@ + i@,
        None => Seq::empty(),
    }) + spec_classes_text(s.classes@, 0)
}

impl Selector {
    /// Render the selector as stylesheet text.
    pub fn to_text(&self) -> (r: String)
        ensures
            r@ == spec_selector_text(*self),
    {
        let mut s = match &self.tag_name {
            Some(t) => t.clone(),
            None => "".to_owned(),
        };
        match &self.id {
            Some(i) => {
                s.append("#");
                s.append(i.as_str());
            },
            None => {},
        }
        proof {
            reveal_strlit("");
            reveal_strlit("#");
            assert(s@ =~= (match self.tag_name {
                Some(t) => t@,
                None => Seq::<char>::empty(),
            }) + (match self.id {
                Some(i) => "#"@ + i@,
                None => Seq::<char>::empty(),
            }));
        }
        let ghost head = s@;
        let n = self.classes.len();
        let mut i: usize = 0;
        while i < n
            invariant
                i <= n,
                n == self.classes.len(),
                s@ + spec_classes_text(self.classes@, i as int) == head + spec_classes_text(
                    self.classes@,
                    0,
                ),
            decreases n - i,
        {
            s.append(".");
            s.append(self.classes[i].as_str());
            proof {
                reveal_strlit(".");
                assert(s@ + spec_classes_text(self.classes@, i + 1) =~= head
                    + spec_classes_text(self.classes@, 0));
            }
            i = i + 1;
        }
        proof {
            assert(s@ =~= s@ + spec_classes_text(self.classes@, n as int));
            assert(s@ =~= spec_selector_text(*self));
        }
        s
    }
}

} // verus!
