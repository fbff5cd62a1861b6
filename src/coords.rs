//! Axis orders and rotation matrices.
use vstd::prelude::*;
use crate::arith::{lemma_mul_abs_le, round_div, round_div_i128};
use crate::vec3::Vec3;
use crate::FIXED_ONE;

verus! {

/// A coordinate axis.
#[derive(Clone, Copy, Debug, PartialEq, Eq, Structural)]
pub enum Axis {
    X,
    Y,
    Z,
}

/// The order in which the three axis rotations are applied.
#[derive(Clone, Copy, Debug, PartialEq, Eq, Structural)]
pub enum Order {
    XYZ,
    YXZ,
    XZY,
    YZX,
    ZXY,
    ZYX,
}

impl Order {
    /// The axes of this order, first applied first.
    pub open spec fn axes(self) -> Seq<Axis> {
        match self {
            Order::XYZ => seq![Axis::X, Axis::Y, Axis::Z],
            Order::YXZ => seq![Axis::Y, Axis::X, Axis::Z],
            Order::XZY => seq![Axis::X, Axis::Z, Axis::Y],
            Order::YZX => seq![Axis::Y, Axis::Z, Axis::X],
            Order::ZXY => seq![Axis::Z, Axis::X, Axis::Y],
            Order::ZYX => seq![Axis::Z, Axis::Y, Axis::X],
        }
    }

    /// The axes of this order, first applied first.
    pub fn order_arr(&self) -> (r: [Axis; 3])
        ensures
            r@ == self.axes(),
    {
        let r = match self {
            Order::XYZ => [Axis::X, Axis::Y, Axis::Z],
            Order::YXZ => [Axis::Y, Axis::X, Axis::Z],
            Order::XZY => [Axis::X, Axis::Z, Axis::Y],
            Order::YZX => [Axis::Y, Axis::Z, Axis::X],
            Order::ZXY => [Axis::Z, Axis::X, Axis::Y],
            Order::ZYX => [Axis::Z, Axis::Y, Axis::X],
        };
        assert(r@ =~= self.axes());
        r
    }
}

/// A 3x3 matrix with fixed-point entries (units of `1 / FIXED_ONE`).
#[derive(Clone, Copy, Debug)]
pub struct RotMtx(pub [[i64; 3]; 3]);

/// Bound on the coordinates that one matrix application accepts.
pub open spec fn apply_limit() -> int {
    0x1000_0000_0000_0000
}

/// Row `i` of `m` applied to `v`, rounded back to fixed point.
pub open spec fn row_times(m: [[i64; 3]; 3], i: int, v: Vec3) -> int {
    round_div(m[i][0] * v.x + m[i][1] * v.y + m[i][2] * v.z, FIXED_ONE as int)
}

/// `m * v`, each component rounded to the nearest fixed-point value.
pub open spec fn apply(m: [[i64; 3]; 3], v: Vec3) -> Vec3 {
    Vec3 { x: row_times(m, 0, v) as i64, y: row_times(m, 1, v) as i64, z: row_times(m, 2, v) as i64 }
}

/// The matrix of `axis` among the three axis matrices.
pub open spec fn pick(axis: Axis, x: RotMtx, y: RotMtx, z: RotMtx) -> [[i64; 3]; 3] {
    match axis {
        Axis::X => x.0,
        Axis::Y => y.0,
        Axis::Z => z.0,
    }
}

/// `v` rotated by the axis matrices in the order `axes` (first applied first).
pub open spec fn rotated(v: Vec3, axes: Seq<Axis>, x: RotMtx, y: RotMtx, z: RotMtx) -> Vec3 {
    apply(pick(axes[2], x, y, z), apply(pick(axes[1], x, y, z), apply(pick(axes[0], x, y, z), v)))
}

/// A matrix with entries in `[-1, 1]` grows a coordinate bound at most
/// threefold, plus rounding.
pub proof fn lemma_apply_bound(m: RotMtx, v: Vec3, lim: int)
    requires
        m.wf(),
        v.within(lim),
        0 <= lim <= apply_limit(),
    ensures
        apply(m.0, v).within(3 * lim),
{
    assert forall|i: int| 0 <= i < 3 implies -3 * lim <= #[trigger] row_times(m.0, i, v) <= 3 * lim by {
        assert(-FIXED_ONE <= m.0[i][0] <= FIXED_ONE);
        assert(-FIXED_ONE <= m.0[i][1] <= FIXED_ONE);
        assert(-FIXED_ONE <= m.0[i][2] <= FIXED_ONE);
        lemma_mul_abs_le(m.0[i][0] as int, v.x as int, 1024, lim, 1024 * lim);
        lemma_mul_abs_le(m.0[i][1] as int, v.y as int, 1024, lim, 1024 * lim);
        lemma_mul_abs_le(m.0[i][2] as int, v.z as int, 1024, lim, 1024 * lim);
        crate::arith::lemma_round_fixed_bound(
            m.0[i][0] * v.x + m.0[i][1] * v.y + m.0[i][2] * v.z,
            3 * lim,
        );
    }
    assert(-3 * lim <= row_times(m.0, 0, v) <= 3 * lim);
    assert(-3 * lim <= row_times(m.0, 1, v) <= 3 * lim);
    assert(-3 * lim <= row_times(m.0, 2, v) <= 3 * lim);
}

impl RotMtx {
    /// Every entry lies in `[-1, 1]`.
    pub open spec fn wf(self) -> bool {
        forall|i: int, j: int|
            0 <= i < 3 && 0 <= j < 3 ==> -FIXED_ONE <= #[trigger] self.0[i][j] <= FIXED_ONE
    }

    /// The zero matrix.
    pub fn new() -> (r: Self)
        ensures
            r.wf(),
            forall|i: int, j: int| 0 <= i < 3 && 0 <= j < 3 ==> #[trigger] r.0[i][j] == 0,
    {
        RotMtx([[0, 0, 0], [0, 0, 0], [0, 0, 0]])
    }

    /// The rotation about X by an angle with cosine `cos` and sine `sin`.
    pub fn x_axis(cos: i64, sin: i64) -> (r: Self)
        requires
            -FIXED_ONE <= cos <= FIXED_ONE,
            -FIXED_ONE <= sin <= FIXED_ONE,
        ensures
            r.wf(),
            r.0 == [[FIXED_ONE, 0, 0], [0, cos, (-sin) as i64], [0, sin, cos]],
    {
        RotMtx([[FIXED_ONE, 0, 0], [0, cos, -sin], [0, sin, cos]])
    }

    /// The rotation about Y by an angle with cosine `cos` and sine `sin`.
    pub fn y_axis(cos: i64, sin: i64) -> (r: Self)
        requires
            -FIXED_ONE <= cos <= FIXED_ONE,
            -FIXED_ONE <= sin <= FIXED_ONE,
        ensures
            r.wf(),
            r.0 == [[cos, 0, sin], [0, FIXED_ONE, 0], [(-sin) as i64, 0, cos]],
    {
        RotMtx([[cos, 0, sin], [0, FIXED_ONE, 0], [-sin, 0, cos]])
    }

    /// The rotation about Z by an angle with cosine `cos` and sine `sin`.
    pub fn z_axis(cos: i64, sin: i64) -> (r: Self)
        requires
            -FIXED_ONE <= cos <= FIXED_ONE,
            -FIXED_ONE <= sin <= FIXED_ONE,
        ensures
            r.wf(),
            r.0 == [[cos, (-sin) as i64, 0], [sin, cos, 0], [0, 0, FIXED_ONE]],
    {
        RotMtx([[cos, -sin, 0], [sin, cos, 0], [0, 0, FIXED_ONE]])
    }

    /// `self * v`, each component rounded to the nearest fixed-point value.
    pub fn mul(&self, v: Vec3) -> (r: Vec3)
        requires
            self.wf(),
            v.within(apply_limit()),
        ensures
            r == apply(self.0, v),
            r.within(3 * apply_limit() + 1),
    {
        Vec3 { x: self.row(0, v), y: self.row(1, v), z: self.row(2, v) }
    }

    fn row(&self, i: usize, v: Vec3) -> (r: i64)
        requires
            self.wf(),
            v.within(apply_limit()),
            i < 3,
        ensures
            r == row_times(self.0, i as int, v),
            -(3 * apply_limit() + 1) <= r <= 3 * apply_limit() + 1,
    {
        let m = self.0[i];
        let ghost l: int = apply_limit();
        proof {
            assert(-FIXED_ONE <= self.0[i as int][0] <= FIXED_ONE);
            assert(-FIXED_ONE <= self.0[i as int][1] <= FIXED_ONE);
            assert(-FIXED_ONE <= self.0[i as int][2] <= FIXED_ONE);
            lemma_mul_abs_le(m[0] as int, v.x as int, 1024, l, 1024 * l);
            lemma_mul_abs_le(m[1] as int, v.y as int, 1024, l, 1024 * l);
            lemma_mul_abs_le(m[2] as int, v.z as int, 1024, l, 1024 * l);
        }
        let s = m[0] as i128 * v.x as i128 + m[1] as i128 * v.y as i128 + m[2] as i128 * v.z as i128;
        let q = round_div_i128(s, FIXED_ONE as i128);
        proof {
            crate::arith::lemma_round_fixed_bound(s as int, 3 * l);
        }
        q as i64
    }
}

} // verus!
