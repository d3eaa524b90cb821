//! Saturating integer arithmetic and the two-component vector built on it.

use vstd::prelude::*;

verus! {

/// The `i32` nearest to `v`: `v` itself when it fits, else the end of the
/// range on `v`'s side.
pub open spec fn sat(v: int) -> i32 {
    if v < i32::MIN {
        i32::MIN
    } else if v > i32::MAX {
        i32::MAX
    } else {
        v as i32
    }
}

/// Brings a widened intermediate result back into the coordinate range.
pub fn saturate(v: i64) -> (r: i32)
    ensures
        r == sat(v as int),
{
    if v < i32::MIN as i64 {
        i32::MIN
    } else if v > i32::MAX as i64 {
        i32::MAX
    } else {
        v as i32
    }
}

/// A point or a displacement in world units.
#[derive(Clone, Copy, Debug, PartialEq, Eq, Structural)]
pub struct Vec2 {
    pub x: i32,
    pub y: i32,
}

impl Vec2 {
    /// Component-wise saturating sum.
    pub open spec fn plus_spec(self, other: Vec2) -> Vec2 {
        Vec2 { x: sat(self.x + other.x), y: sat(self.y + other.y) }
    }

    /// Component-wise saturating difference.
    pub open spec fn minus_spec(self, other: Vec2) -> Vec2 {
        Vec2 { x: sat(self.x - other.x), y: sat(self.y - other.y) }
    }

    /// Component-wise saturating product with a scalar.
    pub open spec fn scaled_spec(self, factor: i32) -> Vec2 {
        Vec2 { x: sat(self.x * factor), y: sat(self.y * factor) }
    }

    pub fn new(x: i32, y: i32) -> (r: Vec2)
        ensures
            r == (Vec2 { x, y }),
    {
        Vec2 { x, y }
    }

    #[verifier::when_used_as_spec(plus_spec)]
    pub fn plus(self, other: Vec2) -> (r: Vec2)
        ensures
            r == self.plus_spec(other),
    {
        Vec2 {
            x: saturate(self.x as i64 + other.x as i64),
            y: saturate(self.y as i64 + other.y as i64),
        }
    }

    #[verifier::when_used_as_spec(minus_spec)]
    pub fn minus(self, other: Vec2) -> (r: Vec2)
        ensures
            r == self.minus_spec(other),
    {
        Vec2 {
            x: saturate(self.x as i64 - other.x as i64),
            y: saturate(self.y as i64 - other.y as i64),
        }
    }

    #[verifier::when_used_as_spec(scaled_spec)]
    pub fn scaled(self, factor: i32) -> (r: Vec2)
        ensures
            r == self.scaled_spec(factor),
    {
        Vec2 { x: scale(self.x, factor), y: scale(self.y, factor) }
    }
}

/// Saturating product of two coordinates.
pub fn scale(v: i32, factor: i32) -> (r: i32)
    ensures
        r == sat(v * factor),
{
    assert(-0x4000_0000_0000_0000 <= v * factor <= 0x4000_0000_0000_0000) by (nonlinear_arith)
        requires
            -0x8000_0000 <= v <= 0x7fff_ffff,
            -0x8000_0000 <= factor <= 0x7fff_ffff,
    ;
    saturate(v as i64 * factor as i64)
}

/// Saturating negation: the lowest coordinate, which has no opposite, goes
/// to the highest.
pub fn negate(v: i32) -> (r: i32)
    ensures
        r == sat(-v),
{
    saturate(-(v as i64))
}

} // verus!
