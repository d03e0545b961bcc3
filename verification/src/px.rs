//! Fixed-point pixel lengths.
//!
//! A `Px` is a signed number of tenths of a pixel. Stylesheets written
//! for this engine use whole-pixel lengths, which scale exactly; the
//! box-model arithmetic (sums of margins, borders, paddings and widths,
//! and halving for centered margins) is exact integer arithmetic on
//! these values. Additions and subtractions saturate at the `i64`
//! bounds instead of wrapping, so geometry computed from absurdly large
//! inputs stays ordered rather than becoming undefined.

use vstd::prelude::*;

verus! {

/// One tenth of a pixel.
pub type Px = i64;

/// Number of `Px` units in one pixel.
pub const PX_PER_PIXEL: i64 = 10;

/// Saturating sum of two lengths, as a mathematical function.
pub open spec fn spec_sadd(a: int, b: int) -> int {
    if a + b > i64::MAX {
        i64::MAX as int
    } else if a + b < i64::MIN {
        i64::MIN as int
    } else {
        a + b
    }
}

/// Saturating difference of two lengths, as a mathematical function.
pub open spec fn spec_ssub(a: int, b: int) -> int {
    if a - b > i64::MAX {
        i64::MAX as int
    } else if a - b < i64::MIN {
        i64::MIN as int
    } else {
        a - b
    }
}

/// Half of a length, rounded toward zero.
pub open spec fn spec_shalf(a: int) -> int {
    if a >= 0 {
        a / 2
    } else {
        -((-a) / 2)
    }
}

/// Saturating addition on `Px` values.
pub fn sadd(a: Px, b: Px) -> (r: Px)
    ensures
        r == spec_sadd(a as int, b as int),
{
    if a >= 0 && b > i64::MAX - a {
        i64::MAX
    } else if a < 0 && b < i64::MIN - a {
        i64::MIN
    } else {
        a + b
    }
}

/// Saturating subtraction on `Px` values.
pub fn ssub(a: Px, b: Px) -> (r: Px)
    ensures
        r == spec_ssub(a as int, b as int),
{
    if b <= 0 && a > i64::MAX + b {
        i64::MAX
    } else if b > 0 && a < i64::MIN + b {
        i64::MIN
    } else {
        a - b
    }
}

/// Half of a `Px` value, rounded toward zero.
pub fn shalf(a: Px) -> (r: Px)
    ensures
        r == spec_shalf(a as int),
{
    if a >= 0 {
        let h: u64 = (a as u64) / 2;
        h as i64
    } else {
        let mag: u64 = if a == i64::MIN {
            9223372036854775808u64
        } else {
            (-a) as u64
        };
        let h: u64 = mag / 2;
        -(h as i64)
    }
}

} // verus!
