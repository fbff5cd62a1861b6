//! Two-dimensional points and vectors in fixed-point coordinates.
use vstd::prelude::*;

verus! {

/// A point or vector; each component is in units of `1 / FIXED_ONE`.
#[derive(Clone, Copy, Debug, PartialEq, Eq, Structural)]
pub struct Vec2 {
    pub x: i64,
    pub y: i64,
}

impl Vec2 {
    /// Both components lie in `[-lim, lim]`.
    pub open spec fn within(self, lim: int) -> bool {
        -lim <= self.x <= lim && -lim <= self.y <= lim
    }

    pub fn new(x: i64, y: i64) -> (r: Self)
        ensures
            r == (Vec2 { x, y }),
    {
        Vec2 { x, y }
    }

    pub fn from_scalar(v: i64) -> (r: Self)
        ensures
            r == (Vec2 { x: v, y: v }),
    {
        Vec2 { x: v, y: v }
    }

    /// Componentwise difference `self - o`.
    pub fn sub(&self, o: &Vec2) -> (r: Vec2)
        requires
            self.within(crate::COORD_LIMIT as int),
            o.within(crate::COORD_LIMIT as int),
        ensures
            r.x == self.x - o.x,
            r.y == self.y - o.y,
    {
        Vec2 { x: self.x - o.x, y: self.y - o.y }
    }

    /// The squared length `x * x + y * y`, in units of `1 / FIXED_ONE^2`.
    pub fn length_squared(&self) -> (r: u128)
        ensures
            r == self.x * self.x + self.y * self.y,
    {
        proof {
            let l: int = 0x8000_0000_0000_0000;
            crate::arith::lemma_mul_abs_le(self.x as int, self.x as int, l, l, l * l);
            crate::arith::lemma_mul_abs_le(self.y as int, self.y as int, l, l, l * l);
            assert(0 <= self.x * self.x && 0 <= self.y * self.y) by (nonlinear_arith);
        }
        let (x, y) = (self.x as i128, self.y as i128);
        (x * x) as u128 + (y * y) as u128
    }

    /// The smaller of the two components.
    pub fn min_val(&self) -> (r: i64)
        ensures
            r == if self.x <= self.y { self.x } else { self.y },
    {
        if self.x <= self.y { self.x } else { self.y }
    }
}

} // verus!
