//! A wrapping angle in [0, 2π), held as an unsigned fixed-point number of
//! π radians with one integer bit and 15 fractional bits (`U1F15`).
use vstd::prelude::*;
use crate::fixed_point::{
    div_i17f15, div_i17f47, mul_u17f15, quot_toward_zero, wrap_i17f15_to_u1f15, wrap_i17f47_to_u1f15,
};

verus! {

/// π radians with 15 fractional bits, rounded to nearest (3.14159265359).
pub const PI_BITS: u32 = 102944;

/// π with 47 fractional bits, rounded to nearest: π·2^47 lies between
/// `PI_Q47 - 1` and `PI_Q47`.
pub const PI_Q47: i64 = 442139859501778;

/// 2π with 47 fractional bits: twice `PI_Q47`.
pub const FULL_TURN_RADIAN_Q47: u64 = 884279719003556;

/// 180 degrees with 15 fractional bits.
pub const HALF_TURN_DEGREE_BITS: i32 = 5898240;

/// 360 degrees with 15 fractional bits.
pub const FULL_TURN_DEGREE_BITS: u32 = 11796480;

/// 180 degrees with 15 fractional bits, unsigned.
pub const HALF_TURN_DEGREE_BITS_UNSIGNED: u32 = 5898240;

/// The angle units that a signed fixed-point number of π radians (15
/// fractional bits, given by its bits) wraps to.
pub open spec fn pi_units_of(value: int) -> int {
    value % 65536
}

/// The angle units of a signed fixed-point number of radians (15 fractional
/// bits, given by its bits): divided by π (as `PI_Q47`, 47 fractional bits),
/// rounded down, then wrapped.
pub open spec fn pi_units_of_radians(value: int) -> int {
    ((value * 0x8000_0000_0000) / (PI_Q47 as int)) % 65536
}

/// The angle units of a signed fixed-point number of degrees (15 fractional
/// bits, given by its bits): divided by 180, rounded down, then wrapped.
pub open spec fn pi_units_of_degrees(value: int) -> int {
    (value / 180) % 65536
}

/// An angle in the range [0, 2π) radians.
///
/// Every value of it is a valid angle: construction wraps and never fails.
#[derive(Debug, Clone, Copy, PartialEq, Eq, Hash, Structural)]
pub struct UnitAngle {
    bits: u16,
}

impl View for UnitAngle {
    type V = nat;

    /// The angle in units of π/2^15 radians, in [0, 2^16).
    closed spec fn view(&self) -> nat {
        self.bits as nat
    }
}

/// The angle's units are below one full turn.
pub proof fn lemma_view_bound(a: UnitAngle)
    ensures
        a@ < 65536,
{
}

/// Two angles are equal exactly when their units are: the units are the
/// whole state of an angle.
pub proof fn lemma_view_injective(a: UnitAngle, b: UnitAngle)
    ensures
        a@ == b@ <==> a == b,
{
}

/// Reduces `value` modulo `period` into [0, period).
fn wrap_into(value: i64, period: u64) -> (r: i64)
    requires
        0 < period <= i64::MAX,
    ensures
        r as int == (value as int) % (period as int),
{
    let a = value as i128;
    if a >= 0 {
        ((a as u64) % period) as i64
    } else {
        let t = ((-a) as u64) % period;
        proof {
            let q = (-a) / (period as int);
            assert(-a == (period as int) * q + t) by (nonlinear_arith)
                requires
                    -a >= 0,
                    period > 0,
                    q == (-a) / (period as int),
                    t == (-a) % (period as int),
            ;
            if t == 0 {
                assert(a == (period as int) * (-q)) by (nonlinear_arith)
                    requires
                        -a == (period as int) * q + t,
                        t == 0,
                ;
                assert((period as int) * (-q) % (period as int) == 0) by (nonlinear_arith)
                    requires
                        period > 0,
                ;
            } else {
                assert(a == (period as int) * (-q - 1) + (period - t)) by (nonlinear_arith)
                    requires
                        -a == (period as int) * q + t,
                ;
                assert(((period as int) * (-q - 1) + (period - t)) % (period as int) == period - t)
                    by (nonlinear_arith)
                    requires
                        period > 0,
                        0 < t < period,
                ;
            }
        }
        if t == 0 {
            0
        } else {
            (period - t) as i64
        }
    }
}

impl UnitAngle {
    /// Creates an angle from an angle in π radians, given as the bits of a
    /// signed fixed-point number with 15 fractional bits (`I17F15`).
    ///
    /// Angles outside the range [0, 2) are wrapped. An angle inside it is
    /// kept exactly.
    pub fn from_pi_radians(value: i32) -> (r: UnitAngle)
        ensures
            r@ == pi_units_of(value as int),
    {
        UnitAngle { bits: wrap_i17f15_to_u1f15(value) }
    }

    /// Creates an angle from an angle in radians, given as the bits of a
    /// signed fixed-point number with 15 fractional bits (`I17F15`).
    ///
    /// The value is widened to 47 fractional bits (`I17F47`), reduced modulo
    /// 2π (`FULL_TURN_RADIAN_Q47`) into [0, 2π), and divided by π
    /// (`PI_Q47`) in that format: the angle is the input divided by π,
    /// rounded down and wrapped.
    pub fn from_radians(value: i32) -> (r: UnitAngle)
        ensures
            r@ == pi_units_of_radians(value as int),
    {
        let wide = (value as i64) * 0x1_0000_0000;
        let reduced = wrap_into(wide, FULL_TURN_RADIAN_Q47);
        let ghost v: int = value as int;
        let ghost m: int = reduced as int;
        let ghost p: int = PI_Q47 as int;
        let ghost t: int = (wide as int) / (2 * p);
        assert(0 <= (m * 0x8000_0000_0000) / p < 0x2_0000_0000_0000) by (nonlinear_arith)
            requires
                0 <= m < 2 * p,
                p == 442139859501778,
        ;
        let quotient = div_i17f47(reduced, PI_Q47);
        let ghost u: int = (m * 32768) / p;
        assert(((m * 0x8000_0000_0000) / p) / 0x1_0000_0000 == u) by (nonlinear_arith)
            requires
                0 <= m,
                p == 442139859501778,
                u == (m * 32768) / p,
        ;
        assert(0 <= u < 65536) by (nonlinear_arith)
            requires
                0 <= m < 2 * p,
                p == 442139859501778,
                u == (m * 32768) / p,
        ;
        assert((v * 0x8000_0000_0000) / p == 65536 * t + u) by (nonlinear_arith)
            requires
                p == 442139859501778,
                t == (v * 0x1_0000_0000) / (2 * p),
                m == (v * 0x1_0000_0000) % (2 * p),
                u == (m * 32768) / p,
        ;
        assert((65536 * t + u) % 65536 == u) by (nonlinear_arith)
            requires
                0 <= u < 65536,
        ;
        UnitAngle { bits: wrap_i17f47_to_u1f15(quotient) }
    }

    /// Creates an angle from an angle in degrees, given as the bits of a
    /// signed fixed-point number with 15 fractional bits (`I17F15`).
    ///
    /// The value is reduced modulo 360 degrees into [0, 360), then divided by
    /// 180 in that format: the angle is the input divided by 180, rounded
    /// down and wrapped, so inputs that differ by whole turns give the same
    /// angle.
    pub fn from_degrees(value: i32) -> (r: UnitAngle)
        ensures
            r@ == pi_units_of_degrees(value as int),
    {
        let reduced = wrap_into(value as i64, FULL_TURN_DEGREE_BITS as u64) as i32;
        let ghost m: int = reduced as int;
        let ghost t: int = (value as int) / 11796480;
        proof {
            lemma_scaled_quot(m);
        }
        assert(0 <= m / 180 < 65536);
        assert((value as int) / 180 == 65536 * t + m / 180) by (nonlinear_arith)
            requires
                t == (value as int) / 11796480,
                m == (value as int) % 11796480,
        ;
        let pi_radians = div_i17f15(reduced, HALF_TURN_DEGREE_BITS);
        assert((65536 * t + m / 180) % 65536 == m / 180) by (nonlinear_arith)
            requires
                0 <= m / 180 < 65536,
        ;
        UnitAngle { bits: wrap_i17f15_to_u1f15(pi_radians) }
    }

    /// Returns the angle in π radians, in the range [0, 2), as the bits of an
    /// unsigned fixed-point number with 15 fractional bits (`U1F15`).
    ///
    /// This is the stored value itself: no precision is lost.
    pub fn as_pi_radians(&self) -> (r: u16)
        ensures
            r as nat == self@,
    {
        self.bits
    }

    /// Returns the angle in radians, as the bits of an unsigned fixed-point
    /// number with 15 fractional bits (`U17F15`): the stored value times
    /// `PI_BITS`, rounded down.
    pub fn as_radians_fixed(&self) -> (r: u32)
        ensures
            r as int == (self@ * PI_BITS) / 32768,
    {
        assert(self.bits * PI_BITS < 0x8000_0000_0000) by (nonlinear_arith)
            requires
                self.bits <= u16::MAX,
        ;
        mul_u17f15(self.bits as u32, PI_BITS)
    }

    /// Returns the angle in degrees, as the bits of an unsigned fixed-point
    /// number with 15 fractional bits (`U17F15`): exactly 180 times the stored
    /// value in π radians.
    pub fn as_degrees_fixed(&self) -> (r: u32)
        ensures
            r as int == self@ * 180,
    {
        assert(self.bits * HALF_TURN_DEGREE_BITS_UNSIGNED < 0x8000_0000_0000) by (nonlinear_arith)
            requires
                self.bits <= u16::MAX,
        ;
        let r = mul_u17f15(self.bits as u32, HALF_TURN_DEGREE_BITS_UNSIGNED);
        assert((self.bits * 5898240) / 32768 == self.bits * 180) by (nonlinear_arith);
        r
    }
}

/// An angle already in [0, 2) π radians is kept exactly: `from_pi_radians`
/// then `as_pi_radians` gives back the same bits.
pub proof fn lemma_pi_radians_lossless(value: i32)
    requires
        0 <= value < 65536,
    ensures
        pi_units_of(value as int) == value,
{
}

/// π radians that differ by whole turns (2 each) give the same angle.
pub proof fn lemma_pi_radians_periodic(value: i32, turns: int)
    requires
        i32::MIN <= value + 65536 * turns <= i32::MAX,
    ensures
        pi_units_of(value as int) == pi_units_of(value + 65536 * turns),
{
    assert((value + 65536 * turns) % 65536 == (value as int) % 65536) by (nonlinear_arith);
}

/// Degrees that differ by whole turns (360 each) give the same angle.
pub proof fn lemma_degrees_periodic(degrees: i32, turns: int)
    requires
        i32::MIN <= degrees + FULL_TURN_DEGREE_BITS * turns <= i32::MAX,
    ensures
        pi_units_of_degrees(degrees as int) == pi_units_of_degrees(
            degrees + FULL_TURN_DEGREE_BITS * turns,
        ),
{
    let d = degrees as int;
    let k = turns;
    assert((d + 11796480 * k) / 180 == d / 180 + 65536 * k) by (nonlinear_arith);
    assert((d / 180 + 65536 * k) % 65536 == (d / 180) % 65536) by (nonlinear_arith);
}

/// Degrees in, degrees out: `from_degrees` then `as_degrees_fixed` gives the
/// input modulo 360 degrees, less than 180 bits (under 0.0055 degrees) below
/// it.
pub proof fn lemma_degrees_round_trip(degrees: i32)
    ensures
        (degrees - pi_units_of_degrees(degrees as int) * 180) % (FULL_TURN_DEGREE_BITS as int)
            < 180,
{
    let d = degrees as int;
    let q = d / 180;
    let m = q % 65536;
    let k = q / 65536;
    assert(q == 65536 * k + m);
    assert(0 <= d - q * 180 < 180) by (nonlinear_arith)
        requires
            q == d / 180,
    ;
    assert(d - m * 180 == (d - q * 180) + 11796480 * k) by (nonlinear_arith)
        requires
            q == 65536 * k + m,
    ;
    assert((d - m * 180) % 11796480 == d - q * 180) by (nonlinear_arith)
        requires
            d - m * 180 == (d - q * 180) + 11796480 * k,
            0 <= d - q * 180 < 180,
    ;
}

/// The whole turns that `from_radians` takes off an input in radians (15
/// fractional bits, given by its bits).
pub open spec fn radian_turns(value: int) -> int {
    ((value * 0x8000_0000_0000) / (PI_Q47 as int)) / 65536
}

/// Radians in, radians out: `from_radians` then `as_radians_fixed` gives the
/// input modulo 2π within 0.001 radians. For any `pi_num / pi_den` within
/// one 2^-47 of `PI_Q47 / 2^47` (a range that holds π), the output, read as
/// `out / 2^15` radians, lies within 0.001 of `radians / 2^15 - 2 * turns *
/// pi_num / pi_den`, where `turns` is `radian_turns(radians)`; scaled by
/// `2^15 * pi_den` that reads as below.
pub proof fn lemma_radians_round_trip(radians: i32, pi_num: int, pi_den: int)
    requires
        pi_den > 0,
        (PI_Q47 - 1) * pi_den <= 0x8000_0000_0000 * pi_num <= (PI_Q47 + 1) * pi_den,
    ensures
        ({
            let out = (pi_units_of_radians(radians as int) * PI_BITS) / 32768;
            let error = out * pi_den - radians * pi_den + 65536 * radian_turns(radians as int)
                * pi_num;
            -32768 * pi_den <= 1000 * error <= 32768 * pi_den
        }),
{
    let v = radians as int;
    let d = pi_den;
    let n = pi_num;
    let big_k: int = 0x8000_0000_0000;
    let s: int = 32768;
    let p: int = PI_BITS as int;
    let pq: int = PI_Q47 as int;
    let q = (v * big_k) / pq;
    let t = q / 65536;
    let m = q % 65536;
    let out = (m * p) / s;
    let r1 = m * p - s * out;
    let r2 = v * big_k - q * pq;
    let delta = big_k * n - pq * d;
    let c = big_k * p - s * pq;
    let x = out * d - v * d + 65536 * t * n;
    assert(c == 41085096624128);
    assert(q == 65536 * t + m && 0 <= m < 65536);
    assert(0 <= r1 < s) by (nonlinear_arith)
        requires
            out == (m * p) / s,
            r1 == m * p - s * out,
            s == 32768,
    ;
    assert(0 <= r2 < pq) by (nonlinear_arith)
        requires
            q == (v * big_k) / pq,
            r2 == v * big_k - q * pq,
            pq == 442139859501778,
    ;
    assert(-10431 <= t <= 10431) by (nonlinear_arith)
        requires
            i32::MIN <= v <= i32::MAX,
            q == (v * big_k) / pq,
            t == q / 65536,
            pq == 442139859501778,
            big_k == 0x8000_0000_0000,
    ;
    assert(-d <= delta <= d) by (nonlinear_arith)
        requires
            (pq - 1) * d <= big_k * n <= (pq + 1) * d,
            delta == big_k * n - pq * d,
    ;
    let ks = big_k * s;
    assert(ks * (out * d) == big_k * d * (m * p) - big_k * d * r1) by (nonlinear_arith)
        requires
            ks == big_k * s,
            s * out == m * p - r1,
    ;
    assert(ks * (v * d) == s * d * (q * pq) + s * d * r2) by (nonlinear_arith)
        requires
            ks == big_k * s,
            v * big_k == q * pq + r2,
    ;
    assert(ks * (65536 * t * n) == s * 65536 * t * (pq * d) + s * 65536 * t * delta)
        by (nonlinear_arith)
        requires
            ks == big_k * s,
            big_k * n == pq * d + delta,
    ;
    assert(s * d * (q * pq) == s * d * pq * m + s * 65536 * t * (pq * d)) by (nonlinear_arith)
        requires
            q == 65536 * t + m,
    ;
    let dm = d * m;
    let kp = big_k * p;
    let spq = s * pq;
    assert(big_k * d * (m * p) == dm * kp) by (nonlinear_arith)
        requires
            dm == d * m,
            kp == big_k * p,
    ;
    assert(s * d * pq * m == dm * spq) by (nonlinear_arith)
        requires
            dm == d * m,
            spq == s * pq,
    ;
    assert(dm * kp - dm * spq == dm * c) by (nonlinear_arith)
        requires
            c == kp - spq,
    ;
    assert(ks * x == ks * (out * d) - ks * (v * d) + ks * (65536 * t * n)) by (nonlinear_arith)
        requires
            x == out * d - v * d + 65536 * t * n,
    ;
    assert(ks * x == d * m * c - big_k * d * r1 - s * d * r2 + s * 65536 * t * delta);
    assert(0 <= d * m * c <= d * 65535 * c) by (nonlinear_arith)
        requires
            d > 0,
            0 <= m < 65536,
            c > 0,
    ;
    assert(0 <= big_k * d * r1 <= big_k * d * s) by (nonlinear_arith)
        requires
            d > 0,
            0 <= r1 < s,
            big_k > 0,
    ;
    assert(0 <= s * d * r2 <= s * d * pq) by (nonlinear_arith)
        requires
            d > 0,
            0 <= r2 < pq,
            s > 0,
    ;
    assert(-(s * 65536 * 10431 * d) <= s * 65536 * t * delta <= s * 65536 * 10431 * d)
        by (nonlinear_arith)
        requires
            d > 0,
            -10431 <= t <= 10431,
            -d <= delta <= d,
            s > 0,
    ;
    let bound = 65535 * c + big_k * s + s * pq + s * 65536 * 10431;
    assert(1000 * bound <= big_k * s * s);
    assert(d * bound == d * 65535 * c + big_k * d * s + s * d * pq + s * 65536 * 10431 * d)
        by (nonlinear_arith)
        requires
            bound == 65535 * c + big_k * s + s * pq + s * 65536 * 10431,
    ;
    assert(-32768 * d <= 1000 * x <= 32768 * d) by (nonlinear_arith)
        requires
            -(d * bound) <= ks * x <= d * bound,
            ks == big_k * s,
            1000 * bound <= big_k * s * s,
            d > 0,
            s == 32768,
            big_k > 0,
    ;
}

/// Dividing the bits of a non-negative degree value scaled by 2^15 by the
/// bits of 180 degrees is dividing the degree bits by 180.
proof fn lemma_scaled_quot(value: int)
    requires
        value >= 0,
    ensures
        quot_toward_zero(value * 32768, 5898240) == value / 180,
{
    assert((value * 32768) / 5898240 == value / 180) by (nonlinear_arith)
        requires
            value >= 0,
    ;
}

} // verus!
