//! The value side of a style declaration.

use vstd::prelude::*;
use crate::css_parser::color_value::ColorValue;
use crate::css_parser::color_value::spec_color_text;
use crate::text::spec_dec;
use crate::text::spec_digit_char;
use crate::text::u64_to_string;
use crate::css_parser::length_unit::LengthUnit;
use crate::px::Px;

verus! {

/// What a declaration's value is mathematically: a keyword is its
/// character sequence, a length is its count of `Px` units, a color is
/// its four channels.
pub enum ValueModel {
    Keyword(Seq<char>),
    Length(int),
    Color(ColorValue),
}

/// A parsed declaration value: a bare keyword, a pixel length, or a
/// color.
#[derive(Debug, Clone)]
pub enum DeclarationValue {
    Keyword(String),
    Length(Px, LengthUnit),
    Color(ColorValue),
}

impl View for DeclarationValue {
    type V = ValueModel;

    open spec fn view(&self) -> ValueModel {
        match self {
            DeclarationValue::Keyword(s) => ValueModel::Keyword(s@),
            DeclarationValue::Length(n, _) => ValueModel::Length(*n as int),
            DeclarationValue::Color(c) => ValueModel::Color(*c),
        }
    }
}

impl PartialEq for DeclarationValue {
    fn eq(&self, other: &DeclarationValue) -> (r: bool) {
        match (self, other) {
            (DeclarationValue::Keyword(a), DeclarationValue::Keyword(b)) => a.eq(b),
            (DeclarationValue::Length(a, _), DeclarationValue::Length(b, _)) => *a == *b,
            (DeclarationValue::Color(a), DeclarationValue::Color(b)) => *a == *b,
            _ => false,
        }
    }
}

impl vstd::std_specs::cmp::PartialEqSpecImpl for DeclarationValue {
    open spec fn obeys_eq_spec() -> bool {
        true
    }

    open spec fn eq_spec(&self, other: &DeclarationValue) -> bool {
        self@ == other@
    }
}

/// The view of the keyword `auto`.
pub open spec fn auto_model() -> ValueModel {
    ValueModel::Keyword("auto"@)
}

impl DeclarationValue {
    /// Whether this value is the keyword `auto`.
    pub fn is_auto(&self) -> (r: bool)
        ensures
            r == (self@ == auto_model()),
    {
        match self {
            DeclarationValue::Keyword(s) => crate::text::str_eq(s.as_str(), "auto"),
            _ => false,
        }
    }

    /// A copy of this value, known to hold the same content.
    pub fn duplicate(&self) -> (r: DeclarationValue)
        ensures
            r == *self,
    {
        match self {
            DeclarationValue::Keyword(s) => DeclarationValue::Keyword(s.clone()),
            DeclarationValue::Length(n, u) => DeclarationValue::Length(*n, *u),
            DeclarationValue::Color(c) => DeclarationValue::Color(*c),
        }
    }

    /// The numeric contribution of this value in the box-model sums: a
    /// length yields its count of `Px` units, the keyword `auto` yields
    /// zero, and anything else is a caller bug reported as `None`.
    pub fn length_to_numerical_value(&self) -> (r: Option<Px>)
        ensures
            match self@ {
                ValueModel::Length(n) => r == Some(n as Px),
                ValueModel::Keyword(_) => if self@ == auto_model() {
                    r == Some(0 as Px)
                } else {
                    r is None
                },
                ValueModel::Color(_) => r is None,
            },
    {
        match self {
            DeclarationValue::Length(n, _) => Some(*n),
            DeclarationValue::Keyword(s) => {
                if crate::text::str_eq(s.as_str(), "auto") {
                    Some(0)
                } else {
                    None
                }
            },
            DeclarationValue::Color(_) => None,
        }
    }
}

/// The decimal text of a length's number: whole pixels, and a
/// fractional tenth when there is one.
pub open spec fn spec_number_text(t: int) -> Seq<char> {
    let mag = if t < 0 {
        -t
    } else {
        t
    };
    (if t < 0 {
        seq!['-']
    } else {
        Seq::empty()
    }) + spec_dec(mag / 10) + (if mag % 10 == 0 {
        Seq::empty()
    } else {
        seq!['.'] + seq![spec_digit_char(mag % 10)]
    })
}

/// The text of a length in pixels: its number and the unit.
pub open spec fn spec_length_text(t: int) -> Seq<char> {
    spec_number_text(t) + "px"@
}

/// The text of a declaration value: the keyword itself, a length with
/// its unit, or a `#`-prefixed color.
pub open spec fn spec_value_text(v: DeclarationValue) -> Seq<char> {
    match v {
        DeclarationValue::Keyword(s) => s@,
        DeclarationValue::Length(t, _) => spec_length_text(t as int),
        DeclarationValue::Color(c) => seq!['#'] + spec_color_text(c),
    }
}

/// The decimal text of a length's number.
pub fn number_text(t: crate::px::Px) -> (r: String)
    ensures
        r@ == spec_number_text(t as int),
{
    let mag: u64 = if t == i64::MIN {
        9223372036854775808u64
    } else if t < 0 {
        (-t) as u64
    } else {
        t as u64
    };
    let mut s = if t < 0 {
        proof {
            reveal_strlit("-");
        }
        "-".to_owned()
    } else {
        "".to_owned()
    };
    proof {
        reveal_strlit("");
    }
    s.append(u64_to_string(mag / 10).as_str());
    let frac = mag % 10;
    if frac != 0 {
        proof {
            reveal_strlit(".");
        }
        s.append(".");
        s.append(crate::text::digit_str(frac));
    }
    proof {
        assert(s@ =~= spec_number_text(t as int));
    }
    s
}

impl DeclarationValue {
    /// Render the value as stylesheet text.
    pub fn to_text(&self) -> (r: String)
        ensures
            r@ == spec_value_text(*self),
    {
        match self {
            DeclarationValue::Keyword(s) => s.clone(),
            DeclarationValue::Length(t, _) => {
                let mut s = number_text(*t);
                s.append("px");
                proof {
                    assert(s@ =~= spec_length_text(*t as int));
                }
                s
            },
            DeclarationValue::Color(c) => {
                proof {
                    reveal_strlit("#");
                }
                let mut s = "#".to_owned();
                s.append(c.to_text().as_str());
                proof {
                    assert(s@ =~= seq!['#'] + spec_color_text(*c));
                }
                s
            },
        }
    }
}

} // verus!
