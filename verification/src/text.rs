//! Small verified helpers on strings and characters.

use vstd::prelude::*;
use vstd::string::StrSliceExecFns;

verus! {

/// Character-wise equality of two string slices.
pub fn str_eq(a: &str, b: &str) -> (r: bool)
    ensures
        r == (a@ == b@),
{
    let alen = a.unicode_len();
    let blen = b.unicode_len();
    if alen != blen {
        proof {
            assert(a@ != b@);
        }
        return false;
    }
    let mut i: usize = 0;
    while i < alen
        invariant
            i <= alen,
            alen == a@.len(),
            alen == b@.len(),
            forall|j: int| 0 <= j < i ==> a@[j] == b@[j],
        decreases alen - i,
    {
        if a.get_char(i) != b.get_char(i) {
            proof {
                assert(a@[i as int] != b@[i as int]);
            }
            return false;
        }
        i = i + 1;
    }
    proof {
        assert(a@ =~= b@);
    }
    true
}

/// The decimal digit character for a value below ten.
pub open spec fn spec_digit_char(d: int) -> char {
    if d == 0 {
        '0'
    } else if d == 1 {
        '1'
    } else if d == 2 {
        '2'
    } else if d == 3 {
        '3'
    } else if d == 4 {
        '4'
    } else if d == 5 {
        '5'
    } else if d == 6 {
        '6'
    } else if d == 7 {
        '7'
    } else if d == 8 {
        '8'
    } else {
        '9'
    }
}

/// The decimal digit sequence of a nonnegative number, no leading
/// zeros (a single zero for zero).
pub open spec fn spec_dec(n: int) -> Seq<char>
    decreases n,
{
    if n < 10 {
        seq![spec_digit_char(n)]
    } else {
        spec_dec(n / 10) + seq![spec_digit_char(n % 10)]
    }
}

/// The one-character string of a decimal digit.
pub fn digit_str(d: u64) -> (r: &'static str)
    requires
        d < 10,
    ensures
        r@ == seq![spec_digit_char(d as int)],
{
    proof {
        reveal_strlit("0");
        reveal_strlit("1");
        reveal_strlit("2");
        reveal_strlit("3");
        reveal_strlit("4");
        reveal_strlit("5");
        reveal_strlit("6");
        reveal_strlit("7");
        reveal_strlit("8");
        reveal_strlit("9");
    }
    if d == 0 {
        "0"
    } else if d == 1 {
        "1"
    } else if d == 2 {
        "2"
    } else if d == 3 {
        "3"
    } else if d == 4 {
        "4"
    } else if d == 5 {
        "5"
    } else if d == 6 {
        "6"
    } else if d == 7 {
        "7"
    } else if d == 8 {
        "8"
    } else {
        "9"
    }
}

/// The decimal text of a nonnegative number.
pub fn u64_to_string(n: u64) -> (r: String)
    ensures
        r@ == spec_dec(n as int),
{
    let mut digits: Vec<u64> = Vec::new();
    let mut m = n;
    while m >= 10
        invariant
            forall|i: int| 0 <= i < digits.len() ==> #[trigger] digits[i] < 10,
            spec_dec(n as int) == spec_dec(m as int) + Seq::new(
                digits.len() as nat,
                |i: int| spec_digit_char(digits[digits.len() - 1 - i] as int),
            ),
        decreases m,
    {
        let d = m % 10;
        let ghost digits0 = digits@;
        digits.push(d);
        m = m / 10;
        proof {
            assert(Seq::new(
                digits.len() as nat,
                |i: int| spec_digit_char(digits[digits.len() - 1 - i] as int),
            ) =~= seq![spec_digit_char(d as int)] + Seq::new(
                digits0.len() as nat,
                |i: int| spec_digit_char(digits0[digits0.len() - 1 - i] as int),
            ));
            assert(spec_dec(n as int) =~= spec_dec(m as int) + (seq![
                spec_digit_char(d as int),
            ] + Seq::new(
                digits0.len() as nat,
                |i: int| spec_digit_char(digits0[digits0.len() - 1 - i] as int),
            )));
        }
    }
    let mut result = digit_str(m).to_owned();
    let mut i = digits.len();
    while i > 0
        invariant
            i <= digits.len(),
            forall|j: int| 0 <= j < digits.len() ==> #[trigger] digits[j] < 10,
            spec_dec(n as int) == result@ + Seq::new(
                i as nat,
                |j: int| spec_digit_char(digits[i - 1 - j] as int),
            ),
        decreases i,
    {
        i = i - 1;
        result.append(digit_str(digits[i]));
        proof {
            assert(Seq::new(
                (i + 1) as nat,
                |j: int| spec_digit_char(digits[i + 1 - 1 - j] as int),
            ) =~= seq![spec_digit_char(digits[i as int] as int)] + Seq::new(
                i as nat,
                |j: int| spec_digit_char(digits[i - 1 - j] as int),
            ));
            assert(spec_dec(n as int) =~= result@ + Seq::new(
                i as nat,
                |j: int| spec_digit_char(digits[i - 1 - j] as int),
            ));
        }
    }
    proof {
        assert(spec_dec(n as int) =~= result@);
    }
    result
}

} // verus!
