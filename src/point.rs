//! A point in screen pixel space, with componentwise wrapping arithmetic.
use vstd::prelude::*;

verus! {

/// The `i32` that `v` wraps to in two's complement: the value in
/// [-2^31, 2^31) congruent to `v` modulo 2^32.
pub open spec fn wrap_i32(v: int) -> int {
    (v + 0x8000_0000) % 0x1_0000_0000 - 0x8000_0000
}

/// A coordinate in units of screen pixels.
///
/// It is not checked against any screen bounds: any pair of `i32` is a
/// point.
#[derive(Debug, Clone, Copy, PartialEq, Eq, Hash, Structural)]
pub struct TouchPoint {
    pub x: i32,
    pub y: i32,
}

/// The componentwise sum of two points, wrapping on overflow.
pub open spec fn point_sum(a: TouchPoint, b: TouchPoint) -> TouchPoint {
    TouchPoint { x: wrap_i32(a.x + b.x) as i32, y: wrap_i32(a.y + b.y) as i32 }
}

/// The componentwise difference of two points, wrapping on overflow.
pub open spec fn point_difference(a: TouchPoint, b: TouchPoint) -> TouchPoint {
    TouchPoint { x: wrap_i32(a.x - b.x) as i32, y: wrap_i32(a.y - b.y) as i32 }
}

/// The componentwise negation of a point, wrapping on overflow (the
/// negation of `i32::MIN` is itself).
pub open spec fn point_negation(a: TouchPoint) -> TouchPoint {
    TouchPoint { x: wrap_i32(-a.x) as i32, y: wrap_i32(-a.y) as i32 }
}

/// `i32::wrapping_add` gives the wrapped sum.
proof fn lemma_wrapping_add(a: i32, b: i32)
    ensures
        a.wrapping_add(b) as int == wrap_i32(a + b),
{
}

/// `i32::wrapping_sub` gives the wrapped difference.
proof fn lemma_wrapping_sub(a: i32, b: i32)
    ensures
        a.wrapping_sub(b) as int == wrap_i32(a - b),
{
}

/// A wrapped value stays within `i32`.
proof fn lemma_wrap_in_range(v: int)
    ensures
        i32::MIN <= wrap_i32(v) <= i32::MAX,
{
}

impl TouchPoint {
    /// Creates a new touch point.
    pub fn new(x: i32, y: i32) -> (r: TouchPoint)
        ensures
            r.x == x,
            r.y == y,
    {
        TouchPoint { x, y }
    }
}

impl core::ops::Add for TouchPoint {
    type Output = TouchPoint;

    fn add(self, rhs: TouchPoint) -> (r: TouchPoint)
        ensures
            r == point_sum(self, rhs),
    {
        proof {
            lemma_wrapping_add(self.x, rhs.x);
            lemma_wrapping_add(self.y, rhs.y);
        }
        TouchPoint { x: self.x.wrapping_add(rhs.x), y: self.y.wrapping_add(rhs.y) }
    }
}

impl vstd::std_specs::ops::AddSpecImpl for TouchPoint {
    open spec fn obeys_add_spec() -> bool {
        true
    }

    open spec fn add_req(self, rhs: TouchPoint) -> bool {
        true
    }

    open spec fn add_spec(self, rhs: TouchPoint) -> TouchPoint {
        point_sum(self, rhs)
    }
}

impl core::ops::Sub for TouchPoint {
    type Output = TouchPoint;

    fn sub(self, rhs: TouchPoint) -> (r: TouchPoint)
        ensures
            r == point_difference(self, rhs),
    {
        proof {
            lemma_wrapping_sub(self.x, rhs.x);
            lemma_wrapping_sub(self.y, rhs.y);
        }
        TouchPoint { x: self.x.wrapping_sub(rhs.x), y: self.y.wrapping_sub(rhs.y) }
    }
}

impl vstd::std_specs::ops::SubSpecImpl for TouchPoint {
    open spec fn obeys_sub_spec() -> bool {
        true
    }

    open spec fn sub_req(self, rhs: TouchPoint) -> bool {
        true
    }

    open spec fn sub_spec(self, rhs: TouchPoint) -> TouchPoint {
        point_difference(self, rhs)
    }
}

impl core::ops::Neg for TouchPoint {
    type Output = TouchPoint;

    fn neg(self) -> (r: TouchPoint)
        ensures
            r == point_negation(self),
    {
        proof {
            lemma_wrapping_sub(0, self.x);
            lemma_wrapping_sub(0, self.y);
        }
        TouchPoint { x: 0i32.wrapping_sub(self.x), y: 0i32.wrapping_sub(self.y) }
    }
}

impl vstd::std_specs::ops::NegSpecImpl for TouchPoint {
    open spec fn obeys_neg_spec() -> bool {
        true
    }

    open spec fn neg_req(self) -> bool {
        true
    }

    open spec fn neg_spec(self) -> TouchPoint {
        point_negation(self)
    }
}

impl core::ops::AddAssign for TouchPoint {
    fn add_assign(&mut self, rhs: TouchPoint)
        ensures
            *final(self) == point_sum(*old(self), rhs),
    {
        *self = *self + rhs;
    }
}

impl core::ops::SubAssign for TouchPoint {
    fn sub_assign(&mut self, rhs: TouchPoint)
        ensures
            *final(self) == point_difference(*old(self), rhs),
    {
        *self = *self - rhs;
    }
}

/// Adding a point and then subtracting it gives back the first point:
/// `(a + b) - b == a` for all points, overflow included.
pub proof fn lemma_add_then_sub(a: TouchPoint, b: TouchPoint)
    ensures
        point_difference(point_sum(a, b), b) == a,
{
    lemma_wrap_in_range(a.x + b.x);
    lemma_wrap_in_range(a.y + b.y);
}

/// Negating a point twice gives it back: `-(-a) == a`, `i32::MIN` included.
pub proof fn lemma_double_negation(a: TouchPoint)
    ensures
        point_negation(point_negation(a)) == a,
{
    lemma_wrap_in_range(-a.x);
    lemma_wrap_in_range(-a.y);
}

} // verus!
