//! Fixed-point arithmetic of the `fixed` crate, on numbers given by their bits.
//!
//! Every format used here has 15 fractional bits: a number with bits `b`
//! stands for `b / 2^15`.
use vstd::prelude::*;

verus! {

/// Quotient of `a` by a positive `b`, rounded toward zero, as Rust's `/` on
/// integers rounds.
pub open spec fn quot_toward_zero(a: int, b: int) -> int
    recommends
        b > 0,
{
    if a >= 0 {
        a / b
    } else {
        -((-a) / b)
    }
}

/// Relies on `<I17F15 as Div>::div` of `fixed`: it shifts the dividend's bits
/// left by the fractional bits in a double-width integer and divides them by
/// the divisor's bits with Rust's `/`, which rounds toward zero. It asserts in
/// debug builds that the quotient fits, which `requires` asks for.
#[verifier::external_body]
pub(crate) fn div_i17f15(a: i32, b: i32) -> (r: i32)
    requires
        b > 0,
        i32::MIN <= quot_toward_zero(a * 32768, b as int) <= i32::MAX,
    ensures
        r as int == quot_toward_zero(a * 32768, b as int),
{
    (fixed::types::I17F15::from_bits(a) / fixed::types::I17F15::from_bits(b)).to_bits()
}

/// Relies on `<I17F47 as Div>::div` of `fixed`: it shifts the dividend's bits
/// left by the 47 fractional bits in a double-width integer and divides them
/// by the divisor's bits with Rust's `/`, which rounds toward zero. It asserts
/// in debug builds that the quotient fits, which `requires` asks for.
#[verifier::external_body]
pub(crate) fn div_i17f47(a: i64, b: i64) -> (r: i64)
    requires
        b > 0,
        i64::MIN <= quot_toward_zero(a * 0x8000_0000_0000, b as int) <= i64::MAX,
    ensures
        r as int == quot_toward_zero(a * 0x8000_0000_0000, b as int),
{
    (fixed::types::I17F47::from_bits(a) / fixed::types::I17F47::from_bits(b)).to_bits()
}

/// Relies on `<U17F15 as Mul>::mul` of `fixed`: the product of the bits in a
/// double-width integer, shifted right by the fractional bits, which rounds
/// down. It asserts in debug builds that the double-width product fits;
/// `requires` keeps the product, and so the result, in range.
#[verifier::external_body]
pub(crate) fn mul_u17f15(a: u32, b: u32) -> (r: u32)
    requires
        a * b < 0x8000_0000_0000,
    ensures
        r as int == (a * b) / 32768,
{
    (fixed::types::U17F15::from_bits(a) * fixed::types::U17F15::from_bits(b)).to_bits()
}

/// Relies on `ToFixed::wrapping_to_fixed` of `fixed`, from `I17F15` to
/// `U1F15`: both have 15 fractional bits, so the value wraps modulo 2, that is
/// the bits wrap modulo 2^16.
#[verifier::external_body]
pub(crate) fn wrap_i17f15_to_u1f15(a: i32) -> (r: u16)
    ensures
        r as int == (a as int) % 65536,
{
    let v = fixed::types::I17F15::from_bits(a);
    fixed::traits::ToFixed::wrapping_to_fixed::<fixed::types::U1F15>(v).to_bits()
}

/// Relies on `ToFixed::wrapping_to_fixed` of `fixed`, from `I17F47` to
/// `U1F15`: the 32 extra fractional bits are discarded, which rounds toward
/// minus infinity (an arithmetic shift right), then the bits wrap modulo 2^16.
#[verifier::external_body]
pub(crate) fn wrap_i17f47_to_u1f15(a: i64) -> (r: u16)
    ensures
        r as int == ((a as int) / 0x1_0000_0000) % 65536,
{
    let v = fixed::types::I17F47::from_bits(a);
    fixed::traits::ToFixed::wrapping_to_fixed::<fixed::types::U1F15>(v).to_bits()
}

} // verus!
