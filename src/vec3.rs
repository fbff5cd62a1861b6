//! Three-dimensional points and vectors in fixed-point coordinates.
use vstd::prelude::*;

verus! {

/// A point or vector; each component is in units of `1 / FIXED_ONE`.
#[derive(Clone, Copy, Debug, PartialEq, Eq, Structural)]
pub struct Vec3 {
    pub x: i64,
    pub y: i64,
    pub z: i64,
}

impl Vec3 {
    /// Every component lies in `[-lim, lim]`.
    pub open spec fn within(self, lim: int) -> bool {
        -lim <= self.x <= lim && -lim <= self.y <= lim && -lim <= self.z <= lim
    }

    pub fn new(x: i64, y: i64, z: i64) -> (r: Self)
        ensures
            r == (Vec3 { x, y, z }),
    {
        Vec3 { x, y, z }
    }

    pub fn from_scalar(v: i64) -> (r: Self)
        ensures
            r == (Vec3 { x: v, y: v, z: v }),
    {
        Vec3 { x: v, y: v, z: v }
    }

    /// Componentwise difference `self - o`.
    pub fn sub(&self, o: &Vec3) -> (r: Vec3)
        requires
            self.within(crate::COORD_LIMIT as int),
            o.within(crate::COORD_LIMIT as int),
        ensures
            r.x == self.x - o.x,
            r.y == self.y - o.y,
            r.z == self.z - o.z,
    {
        Vec3 { x: self.x - o.x, y: self.y - o.y, z: self.z - o.z }
    }

    /// The squared length `x * x + y * y + z * z`, in units of `1 / FIXED_ONE^2`.
    pub fn length_squared(&self) -> (r: u128)
        ensures
            r == self.x * self.x + self.y * self.y + self.z * self.z,
    {
        proof {
            let l: int = 0x8000_0000_0000_0000;
            crate::arith::lemma_mul_abs_le(self.x as int, self.x as int, l, l, l * l);
            crate::arith::lemma_mul_abs_le(self.y as int, self.y as int, l, l, l * l);
            crate::arith::lemma_mul_abs_le(self.z as int, self.z as int, l, l, l * l);
            assert(0 <= self.x * self.x && 0 <= self.y * self.y && 0 <= self.z * self.z)
                by (nonlinear_arith);
        }
        let (x, y, z) = (self.x as i128, self.y as i128, self.z as i128);
        (x * x) as u128 + (y * y) as u128 + (z * z) as u128
    }

    /// The smallest of the three components.
    pub fn min_val(&self) -> (r: i64)
        ensures
            r <= self.x && r <= self.y && r <= self.z,
            r == self.x || r == self.y || r == self.z,
    {
        let m = if self.y < self.z { self.y } else { self.z };
        if self.x < m { self.x } else { m }
    }

    /// The cross product `v1 x v2` of two differences of coordinates.
    pub fn cross(v1: Vec3, v2: Vec3) -> (r: Vec3)
        requires
            v1.within(2 * crate::COORD_LIMIT as int),
            v2.within(2 * crate::COORD_LIMIT as int),
        ensures
            r.x == v1.y * v2.z - v1.z * v2.y,
            r.y == v1.z * v2.x - v1.x * v2.z,
            r.z == v1.x * v2.y - v1.y * v2.x,
    {
        proof {
            crate::arith::lemma_mul_abs_le(v1.y as int, v2.z as int, 0x20_0000, 0x20_0000, 0x400_0000_0000);
            crate::arith::lemma_mul_abs_le(v1.z as int, v2.y as int, 0x20_0000, 0x20_0000, 0x400_0000_0000);
            crate::arith::lemma_mul_abs_le(v1.z as int, v2.x as int, 0x20_0000, 0x20_0000, 0x400_0000_0000);
            crate::arith::lemma_mul_abs_le(v1.x as int, v2.z as int, 0x20_0000, 0x20_0000, 0x400_0000_0000);
            crate::arith::lemma_mul_abs_le(v1.x as int, v2.y as int, 0x20_0000, 0x20_0000, 0x400_0000_0000);
            crate::arith::lemma_mul_abs_le(v1.y as int, v2.x as int, 0x20_0000, 0x20_0000, 0x400_0000_0000);
        }
        Vec3 {
            x: v1.y * v2.z - v1.z * v2.y,
            y: v1.z * v2.x - v1.x * v2.z,
            z: v1.x * v2.y - v1.y * v2.x,
        }
    }
}

} // verus!
