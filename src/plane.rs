//! The plane of one triangle: normal, offset, in-plane weights and depth.
//!
//! A sample point is given by integer sample indices `(xs, ys)` and the
//! resolution `r`: it stands at `(xs / r, ys / r)` in real units. To keep
//! every quantity integral, the weights are computed in units of
//! `1 / (r * FIXED_ONE)`, where a vertex coordinate `c` becomes `c * r` and a
//! sample index `s` becomes `s * FIXED_ONE`. The weights do not depend on
//! that common scale.
use vstd::prelude::*;
use crate::arith::{lemma_mul_abs_le, round_div, signed, Ratio};
use crate::vec3::Vec3;
use crate::{COORD_LIMIT, FIXED_ONE, MAX_RESOLUTION};

verus! {

/// Largest magnitude of a sample index along one axis.
pub const SAMPLE_LIMIT: i64 = 2097152;

/// X component of the normal `cross(a - b, a - c)`.
pub open spec fn normal_x(a: Vec3, b: Vec3, c: Vec3) -> int {
    (a.y - b.y) * (a.z - c.z) - (a.z - b.z) * (a.y - c.y)
}

/// Y component of the normal `cross(a - b, a - c)`.
pub open spec fn normal_y(a: Vec3, b: Vec3, c: Vec3) -> int {
    (a.z - b.z) * (a.x - c.x) - (a.x - b.x) * (a.z - c.z)
}

/// Z component of the normal `cross(a - b, a - c)`.
pub open spec fn normal_z(a: Vec3, b: Vec3, c: Vec3) -> int {
    (a.x - b.x) * (a.y - c.y) - (a.y - b.y) * (a.x - c.x)
}

/// The plane offset `k = N . a`.
pub open spec fn offset(a: Vec3, b: Vec3, c: Vec3) -> int {
    normal_x(a, b, c) * a.x + normal_y(a, b, c) * a.y + normal_z(a, b, c) * a.z
}

/// Weights `(w1, w2)` with `P = A + w1 * (B - A) + w2 * (C - A)` over the
/// X and Y components, as `(n1, n2, d)` meaning `w1 = n1 / d`, `w2 = n2 / d`,
/// `d > 0`: the solution of that 2x2 linear system by Cramer's rule over its
/// determinant `det`. Where `det` is zero, the triangle's projection on XY
/// is a segment (or a point) and the system has no unique solution: a point
/// on that segment gets both weights zero (it tests inside), and any other
/// point gets the weights `(-1, 0)`, which test outside.
pub open spec fn solve_weights(
    ax: int,
    ay: int,
    bx: int,
    by: int,
    cx: int,
    cy: int,
    px: int,
    py: int,
) -> (int, int, int) {
    let s0 = cy - ay;
    let s1 = py - ay;
    let s2 = cx - ax;
    let s3 = by - ay;
    let s4 = bx - ax;
    let t = px - ax;
    let det = s3 * s2 - s4 * s0;
    let num1 = s1 * s2 - t * s0;
    let num2 = s3 * t - s4 * s1;
    if det != 0 {
        let (n1, d) = signed(num1, det);
        (n1, signed(num2, det).0, d)
    } else if on_degenerate_projection(ax, ay, bx, by, cx, cy, px, py) {
        (0, 0, 1)
    } else {
        (-1, 0, 1)
    }
}

/// For a triangle whose projection on XY is degenerate (`A`, `B`, `C`
/// collinear there), the point `(px, py)` lies on that projection: it is on
/// the line through the projected vertices, along the direction `C - A` (or
/// `B - A` where `C` and `A` coincide), and within their range on both axes.
pub open spec fn on_degenerate_projection(
    ax: int,
    ay: int,
    bx: int,
    by: int,
    cx: int,
    cy: int,
    px: int,
    py: int,
) -> bool {
    let (dx, dy) = if cx - ax != 0 || cy - ay != 0 {
        (cx - ax, cy - ay)
    } else {
        (bx - ax, by - ay)
    };
    &&& (px - ax) * dy - (py - ay) * dx == 0
    &&& (ax <= px || bx <= px || cx <= px) && (ax >= px || bx >= px || cx >= px)
    &&& (ay <= py || by <= py || cy <= py) && (ay >= py || by >= py || cy >= py)
}

/// The inside test: `w1 >= 0`, `w2 >= 0` and `w1 + w2 <= 1`, edges included.
pub open spec fn inside(w: (int, int, int)) -> bool {
    w.0 >= 0 && w.1 >= 0 && w.0 + w.1 <= w.2
}

/// In-plane weights `w1 = w1 / den` and `w2 = w2 / den`, with `den > 0`.
#[derive(Clone, Copy, Debug, PartialEq, Eq, Structural)]
pub struct Weights {
    pub w1: i128,
    pub w2: i128,
    pub den: i128,
}

impl Weights {
    pub open spec fn view(self) -> (int, int, int) {
        (self.w1 as int, self.w2 as int, self.den as int)
    }

    /// The magnitudes that weights of a well-formed plane stay within.
    pub open spec fn bounded(self) -> bool {
        -0x4_0000_0000_0000_0000_0000_0000 <= self.w1 <= 0x4_0000_0000_0000_0000_0000_0000
            && -0x4_0000_0000_0000_0000_0000_0000 <= self.w2 <= 0x4_0000_0000_0000_0000_0000_0000
            && 0 < self.den <= 0x4_0000_0000_0000_0000_0000_0000
    }
}

/// The plane through three vertices: `N . P == k` for every point `P` on it.
#[derive(Clone, Copy, Debug)]
pub struct TriangularPlane {
    pub a: Vec3,
    pub b: Vec3,
    pub c: Vec3,
    pub n: Vec3,
    pub k: i128,
}

impl TriangularPlane {
    /// The vertices are in range and `n`, `k` are their normal and offset.
    pub open spec fn wf(self) -> bool {
        &&& self.a.within(COORD_LIMIT as int)
        &&& self.b.within(COORD_LIMIT as int)
        &&& self.c.within(COORD_LIMIT as int)
        &&& self.n.x == normal_x(self.a, self.b, self.c)
        &&& self.n.y == normal_y(self.a, self.b, self.c)
        &&& self.n.z == normal_z(self.a, self.b, self.c)
        &&& self.k == offset(self.a, self.b, self.c)
    }

    /// The weights of the point `(px, py)` given in units of `1 / (r * FIXED_ONE)`.
    pub open spec fn weights_scaled(self, px: int, py: int, r: int) -> (int, int, int) {
        solve_weights(
            self.a.x * r,
            self.a.y * r,
            self.b.x * r,
            self.b.y * r,
            self.c.x * r,
            self.c.y * r,
            px,
            py,
        )
    }

    /// The weights of the sample point `(xs / r, ys / r)`.
    pub open spec fn weights_at(self, xs: int, ys: int, r: int) -> (int, int, int) {
        self.weights_scaled(xs * FIXED_ONE, ys * FIXED_ONE, r)
    }

    /// The depth `z = (k - N.x * x - N.y * y) / N.z` at `(xs / r, ys / r)`,
    /// in real units, as `(num, den)` with `den > 0`.
    pub open spec fn depth_at(self, xs: int, ys: int, r: int) -> (int, int) {
        signed(
            self.k * r - self.n.x * xs * FIXED_ONE - self.n.y * ys * FIXED_ONE,
            self.n.z * r * FIXED_ONE,
        )
    }

    pub fn new(a: Vec3, b: Vec3, c: Vec3, n: Vec3, k: i128) -> (r: Self)
        ensures
            r == (TriangularPlane { a, b, c, n, k }),
    {
        TriangularPlane { a, b, c, n, k }
    }

    /// The plane of the triangle `a, b, c`.
    pub fn from_plane(a: Vec3, b: Vec3, c: Vec3) -> (r: Self)
        requires
            a.within(COORD_LIMIT as int),
            b.within(COORD_LIMIT as int),
            c.within(COORD_LIMIT as int),
        ensures
            r.wf(),
            r.a == a && r.b == b && r.c == c,
    {
        let v1 = a.sub(&b);
        let v2 = a.sub(&c);
        let n = Vec3::cross(v1, v2);
        proof {
            lemma_normal_bounds(a, b, c);
            lemma_mul_abs_le(n.x as int, a.x as int, 0x800_0000_0000, 0x10_0000, 0x8000_0000_0000_0000);
            lemma_mul_abs_le(n.y as int, a.y as int, 0x800_0000_0000, 0x10_0000, 0x8000_0000_0000_0000);
            lemma_mul_abs_le(n.z as int, a.z as int, 0x800_0000_0000, 0x10_0000, 0x8000_0000_0000_0000);
        }
        let k = n.x as i128 * a.x as i128 + n.y as i128 * a.y as i128 + n.z as i128 * a.z as i128;
        Self::new(a, b, c, n, k)
    }

    /// Weights of the sample point `(xs / r, ys / r)`.
    pub fn calc_weights(&self, xs: i64, ys: i64, resolution: u16) -> (w: Weights)
        requires
            self.wf(),
            1 <= resolution <= MAX_RESOLUTION,
            -SAMPLE_LIMIT <= xs <= SAMPLE_LIMIT,
            -SAMPLE_LIMIT <= ys <= SAMPLE_LIMIT,
        ensures
            w@ == self.weights_at(xs as int, ys as int, resolution as int),
            w.bounded(),
    {
        let r = resolution as i128;
        proof {
            lemma_mul_abs_le(self.a.x as int, r as int, 0x10_0000, 0x400, 0x4000_0000);
            lemma_mul_abs_le(self.a.y as int, r as int, 0x10_0000, 0x400, 0x4000_0000);
            lemma_mul_abs_le(self.b.x as int, r as int, 0x10_0000, 0x400, 0x4000_0000);
            lemma_mul_abs_le(self.b.y as int, r as int, 0x10_0000, 0x400, 0x4000_0000);
            lemma_mul_abs_le(self.c.x as int, r as int, 0x10_0000, 0x400, 0x4000_0000);
            lemma_mul_abs_le(self.c.y as int, r as int, 0x10_0000, 0x400, 0x4000_0000);
            lemma_mul_abs_le(xs as int, 1024, 0x20_0000, 1024, 0x8000_0000);
            lemma_mul_abs_le(ys as int, 1024, 0x20_0000, 1024, 0x8000_0000);
        }
        let ax = self.a.x as i128 * r;
        let ay = self.a.y as i128 * r;
        let bx = self.b.x as i128 * r;
        let by = self.b.y as i128 * r;
        let cx = self.c.x as i128 * r;
        let cy = self.c.y as i128 * r;
        let px = xs as i128 * FIXED_ONE as i128;
        let py = ys as i128 * FIXED_ONE as i128;
        let s0 = cy - ay;
        let s1 = py - ay;
        let s2 = cx - ax;
        let s3 = by - ay;
        let s4 = bx - ax;
        let t = px - ax;
        proof {
            let l: int = 0x1_0000_0000;
            let l2: int = 0x1_0000_0000_0000_0000;
            lemma_mul_abs_le(s3 as int, s2 as int, l, l, l2);
            lemma_mul_abs_le(s4 as int, s0 as int, l, l, l2);
            lemma_mul_abs_le(s1 as int, s2 as int, l, l, l2);
            lemma_mul_abs_le(t as int, s0 as int, l, l, l2);
            lemma_mul_abs_le(s3 as int, t as int, l, l, l2);
            lemma_mul_abs_le(s4 as int, s1 as int, l, l, l2);
        }
        let det = s3 * s2 - s4 * s0;
        let num1 = s1 * s2 - t * s0;
        let num2 = s3 * t - s4 * s1;
        if det < 0 {
            Weights { w1: -num1, w2: -num2, den: -det }
        } else if det > 0 {
            Weights { w1: num1, w2: num2, den: det }
        } else {
            let (dx, dy) = if s2 != 0 || s0 != 0 {
                (s2, s0)
            } else {
                (s4, s3)
            };
            proof {
                let l: int = 0x1_0000_0000;
                let l2: int = 0x1_0000_0000_0000_0000;
                lemma_mul_abs_le(t as int, dy as int, l, l, l2);
                lemma_mul_abs_le(s1 as int, dx as int, l, l, l2);
            }
            let on_line = t * dy - s1 * dx == 0;
            let in_x = (ax <= px || bx <= px || cx <= px) && (ax >= px || bx >= px || cx >= px);
            let in_y = (ay <= py || by <= py || cy <= py) && (ay >= py || by >= py || cy >= py);
            if on_line && in_x && in_y {
                Weights { w1: 0, w2: 0, den: 1 }
            } else {
                Weights { w1: -1, w2: 0, den: 1 }
            }
        }
    }

    /// The inside test on weights; edges and corners are inside.
    pub fn weights_within_plane(w: Weights) -> (r: bool)
        requires
            w.den > 0,
        ensures
            r == inside(w@),
    {
        w.w1 >= 0 && w.w2 >= 0 && w.w1 <= w.den - w.w2
    }

    /// The plane is vertical: it has no single depth over a point of `XY`.
    pub fn fills_z(&self) -> (r: bool)
        ensures
            r == (self.n.z == 0),
    {
        self.n.z == 0
    }

    /// The depth of the plane over the sample point `(xs / r, ys / r)`.
    pub fn calculate_z(&self, xs: i64, ys: i64, resolution: u16) -> (z: Ratio)
        requires
            self.wf(),
            self.n.z != 0,
            1 <= resolution <= MAX_RESOLUTION,
            -SAMPLE_LIMIT <= xs <= SAMPLE_LIMIT,
            -SAMPLE_LIMIT <= ys <= SAMPLE_LIMIT,
        ensures
            (z.num as int, z.den as int) == self.depth_at(xs as int, ys as int, resolution as int),
            z.den > 0,
            -0x1_0000_0000_0000_0000_0000 <= z.num <= 0x1_0000_0000_0000_0000_0000,
            z.den <= 0x1_0000_0000_0000_0000_0000,
    {
        let r = resolution as i128;
        proof {
            lemma_normal_bounds(self.a, self.b, self.c);
            lemma_mul_abs_le(self.k as int, r as int, 0x4_0000_0000_0000_0000, 0x400, 0x1000_0000_0000_0000_0000);
            lemma_mul_abs_le(self.n.x as int, xs as int, 0x800_0000_0000, 0x20_0000, 0x1_0000_0000_0000_0000);
            lemma_mul_abs_le(self.n.y as int, ys as int, 0x800_0000_0000, 0x20_0000, 0x1_0000_0000_0000_0000);
            lemma_mul_abs_le(self.n.z as int, r as int, 0x800_0000_0000, 0x400, 0x20_0000_0000_0000);
            let nz = self.n.z as int;
            assert(nz * r * 1024 != 0) by (nonlinear_arith)
                requires
                    nz != 0,
                    r >= 1,
            ;
        }
        let num = self.k * r - self.n.x as i128 * xs as i128 * FIXED_ONE as i128
            - self.n.y as i128 * ys as i128 * FIXED_ONE as i128;
        let den = self.n.z as i128 * r * FIXED_ONE as i128;
        if den < 0 {
            Ratio { num: -num, den: -den }
        } else {
            Ratio { num, den }
        }
    }

    /// Componentwise minimum and maximum of the three vertices.
    pub fn bounds(&self) -> (r: (Vec3, Vec3))
        ensures
            r.0.x == min3(self.a.x, self.b.x, self.c.x),
            r.0.y == min3(self.a.y, self.b.y, self.c.y),
            r.0.z == min3(self.a.z, self.b.z, self.c.z),
            r.1.x == max3(self.a.x, self.b.x, self.c.x),
            r.1.y == max3(self.a.y, self.b.y, self.c.y),
            r.1.z == max3(self.a.z, self.b.z, self.c.z),
    {
        (
            Vec3::new(
                min_i64(self.a.x, min_i64(self.b.x, self.c.x)),
                min_i64(self.a.y, min_i64(self.b.y, self.c.y)),
                min_i64(self.a.z, min_i64(self.b.z, self.c.z)),
            ),
            Vec3::new(
                max_i64(self.a.x, max_i64(self.b.x, self.c.x)),
                max_i64(self.a.y, max_i64(self.b.y, self.c.y)),
                max_i64(self.a.z, max_i64(self.b.z, self.c.z)),
            ),
        )
    }
}

pub open spec fn min3(a: i64, b: i64, c: i64) -> i64 {
    if a <= b && a <= c {
        a
    } else if b <= c {
        b
    } else {
        c
    }
}

pub open spec fn max3(a: i64, b: i64, c: i64) -> i64 {
    if a >= b && a >= c {
        a
    } else if b >= c {
        b
    } else {
        c
    }
}

fn min_i64(a: i64, b: i64) -> (r: i64)
    ensures
        r == if a <= b { a } else { b },
{
    if a <= b { a } else { b }
}

fn max_i64(a: i64, b: i64) -> (r: i64)
    ensures
        r == if a >= b { a } else { b },
{
    if a >= b { a } else { b }
}

/// Substituting the resolved depth into the plane equation gives back the
/// offset: at every sample point `(x, y) = (xs / r, ys / r)` of a plane with
/// `N.z != 0`, the depth `z = zn / zd` satisfies `N . (x, y, z) == k`
/// (both sides multiplied by `r * zd`, in fixed-point units).
pub proof fn lemma_depth_on_plane(p: TriangularPlane, xs: int, ys: int, r: int)
    requires
        p.n.z != 0,
        r >= 1,
    ensures
        ({
            let (zn, zd) = p.depth_at(xs, ys, r);
            &&& zd > 0
            &&& p.n.x * xs * FIXED_ONE * zd + p.n.y * ys * FIXED_ONE * zd + p.n.z * zn * FIXED_ONE * r
                == p.k * r * zd
        }),
{
    let (zn, zd) = p.depth_at(xs, ys, r);
    let nx = p.n.x as int;
    let ny = p.n.y as int;
    let nz = p.n.z as int;
    let k = p.k as int;
    let e = k * r - nx * xs * 1024 - ny * ys * 1024;
    let g = nz * r * 1024;
    assert(g != 0) by (nonlinear_arith)
        requires
            nz != 0,
            r >= 1,
            g == nz * r * 1024,
    ;
    if g < 0 {
        assert(zn == -e && zd == -g);
    } else {
        assert(zn == e && zd == g);
    }
    assert(nx * xs * 1024 * zd + ny * ys * 1024 * zd + nz * zn * 1024 * r == k * r * zd)
        by (nonlinear_arith)
        requires
            (zn == e && zd == g) || (zn == -e && zd == -g),
            e == k * r - nx * xs * 1024 - ny * ys * 1024,
            g == nz * r * 1024,
    ;
}

/// Where the determinant is nonzero, the weights solve
/// `P - A == w1 * (B - A) + w2 * (C - A)` exactly in X and Y.
pub proof fn lemma_solve_weights_exact(
    ax: int,
    ay: int,
    bx: int,
    by: int,
    cx: int,
    cy: int,
    px: int,
    py: int,
)
    requires
        (by - ay) * (cx - ax) - (bx - ax) * (cy - ay) != 0,
    ensures
        ({
            let (w1, w2, d) = solve_weights(ax, ay, bx, by, cx, cy, px, py);
            &&& d > 0
            &&& d * (px - ax) == w1 * (bx - ax) + w2 * (cx - ax)
            &&& d * (py - ay) == w1 * (by - ay) + w2 * (cy - ay)
        }),
{
    let s0 = cy - ay;
    let s1 = py - ay;
    let s2 = cx - ax;
    let s3 = by - ay;
    let s4 = bx - ax;
    let t = px - ax;
    let det = s3 * s2 - s4 * s0;
    let num1 = s1 * s2 - t * s0;
    let num2 = s3 * t - s4 * s1;
    let (u, v) = (s2 * s4, s0 * s4);
    assert(num1 * s4 == s1 * u - t * v) by (nonlinear_arith)
        requires
            num1 == s1 * s2 - t * s0,
            u == s2 * s4,
            v == s0 * s4,
    ;
    assert(num2 * s2 == t * (s3 * s2) - s1 * u) by (nonlinear_arith)
        requires
            num2 == s3 * t - s4 * s1,
            u == s2 * s4,
    ;
    assert(t * (s3 * s2) - t * v == t * det) by (nonlinear_arith)
        requires
            det == s3 * s2 - s4 * s0,
            v == s0 * s4,
    ;
    let q = s2 * s3;
    assert(num1 * s3 == s1 * q - t * (s0 * s3)) by (nonlinear_arith)
        requires
            num1 == s1 * s2 - t * s0,
            q == s2 * s3,
    ;
    assert(num2 * s0 == t * (s0 * s3) - s1 * (s4 * s0)) by (nonlinear_arith)
        requires
            num2 == s3 * t - s4 * s1,
    ;
    assert(s1 * q - s1 * (s4 * s0) == s1 * det) by (nonlinear_arith)
        requires
            det == s3 * s2 - s4 * s0,
            q == s2 * s3,
    ;
    assert(det * t == num1 * s4 + num2 * s2 && det * s1 == num1 * s3 + num2 * s0);
    assert((-det) * t == (-num1) * s4 + (-num2) * s2 && (-det) * s1 == (-num1) * s3 + (-num2)
        * s0) by (nonlinear_arith)
        requires
            det * t == num1 * s4 + num2 * s2,
            det * s1 == num1 * s3 + num2 * s0,
    ;
}

/// The weights rebuild the point: `A + w1 * (B - A) + w2 * (C - A)` equals the
/// sample point `(xs / r, ys / r)` in X and Y (both sides multiplied by
/// `d * r * FIXED_ONE`), wherever the plane is not vertical (`N.z != 0`,
/// that is, the triangle's projection on XY is not degenerate).
pub proof fn lemma_weights_rebuild_point(p: TriangularPlane, xs: int, ys: int, r: int)
    requires
        p.wf(),
        p.n.z != 0,
        r >= 1,
    ensures
        ({
            let (w1, w2, d) = p.weights_at(xs, ys, r);
            &&& d > 0
            &&& d * (xs * FIXED_ONE) == d * (p.a.x * r) + w1 * ((p.b.x - p.a.x) * r) + w2 * ((p.c.x
                - p.a.x) * r)
            &&& d * (ys * FIXED_ONE) == d * (p.a.y * r) + w1 * ((p.b.y - p.a.y) * r) + w2 * ((p.c.y
                - p.a.y) * r)
        }),
{
    lemma_projection_divisor(p, r);
    lemma_solve_weights_exact(
        p.a.x * r,
        p.a.y * r,
        p.b.x * r,
        p.b.y * r,
        p.c.x * r,
        p.c.y * r,
        xs * FIXED_ONE,
        ys * FIXED_ONE,
    );
    lemma_scaled_diff(p.b.x as int, p.a.x as int, r);
    lemma_scaled_diff(p.c.x as int, p.a.x as int, r);
    lemma_scaled_diff(p.b.y as int, p.a.y as int, r);
    lemma_scaled_diff(p.c.y as int, p.a.y as int, r);
    let (w1, w2, d) = p.weights_at(xs, ys, r);
    assert(d * (xs * FIXED_ONE - p.a.x * r) == d * (xs * FIXED_ONE) - d * (p.a.x * r))
        by (nonlinear_arith);
    assert(d * (ys * FIXED_ONE - p.a.y * r) == d * (ys * FIXED_ONE) - d * (p.a.y * r))
        by (nonlinear_arith);
}

/// The first divisor of the closed form, on coordinates scaled by `r`, is
/// `-r * r * N.z`: it is zero exactly when the plane is vertical.
pub proof fn lemma_projection_divisor(p: TriangularPlane, r: int)
    requires
        p.wf(),
        r >= 1,
    ensures
        ((p.b.y * r - p.a.y * r) * (p.c.x * r - p.a.x * r) - (p.b.x * r - p.a.x * r) * (p.c.y * r
            - p.a.y * r) != 0) == (p.n.z != 0),
{
    let (ax, ay, bx, by, cx, cy) = (
        p.a.x as int,
        p.a.y as int,
        p.b.x as int,
        p.b.y as int,
        p.c.x as int,
        p.c.y as int,
    );
    let nz = p.n.z as int;
    lemma_scaled_diff(by, ay, r);
    lemma_scaled_diff(cx, ax, r);
    lemma_scaled_diff(bx, ax, r);
    lemma_scaled_diff(cy, ay, r);
    let (x1, y1, x2, y2) = (by - ay, cx - ax, bx - ax, cy - ay);
    let rr = r * r;
    lemma_mul_swap(x1, y1, r, r);
    lemma_mul_swap(x2, y2, r, r);
    let (q1, q2) = (x1 * y1, x2 * y2);
    let den1 = (x1 * r) * (y1 * r) - (x2 * r) * (y2 * r);
    assert(den1 == q1 * rr - q2 * rr);
    assert(q1 * rr - q2 * rr == (q1 - q2) * rr) by (nonlinear_arith);
    assert(nz == q2 - q1) by (nonlinear_arith)
        requires
            nz == (ax - bx) * (ay - cy) - (ay - by) * (ax - cx),
            q1 == (by - ay) * (cx - ax),
            q2 == (bx - ax) * (cy - ay),
    ;
    assert(rr >= 1) by (nonlinear_arith)
        requires
            r >= 1,
            rr == r * r,
    ;
    assert(((q1 - q2) * rr != 0) == (q1 - q2 != 0)) by (nonlinear_arith)
        requires
            rr >= 1,
    ;
}

/// Products may be regrouped: `(a * c) * (b * d) == (a * b) * (c * d)`.
proof fn lemma_mul_swap(a: int, b: int, c: int, d: int)
    ensures
        (a * c) * (b * d) == (a * b) * (c * d),
{
    assert((a * c) * (b * d) == (a * b) * (c * d)) by (nonlinear_arith);
}

/// Scaling commutes with differences.
proof fn lemma_scaled_diff(u: int, v: int, r: int)
    ensures
        u * r - v * r == (u - v) * r,
{
    assert(u * r - v * r == (u - v) * r) by (nonlinear_arith);
}

/// A point at a corner of the triangle tests inside, with weights exactly
/// `(0, 0)` at `A`, `(1, 0)` at `B` and `(0, 1)` at `C`; where the plane is
/// vertical, every corner lies on the projected segment, gets zero weights
/// and still tests inside.
pub proof fn lemma_corners_inside(p: TriangularPlane, r: int)
    requires
        p.wf(),
        r >= 1,
    ensures
        inside(p.weights_scaled(p.a.x * r, p.a.y * r, r)),
        inside(p.weights_scaled(p.b.x * r, p.b.y * r, r)),
        inside(p.weights_scaled(p.c.x * r, p.c.y * r, r)),
        ({
            let w = p.weights_scaled(p.a.x * r, p.a.y * r, r);
            w.0 == 0 && w.1 == 0
        }),
        p.n.z != 0 ==> ({
            let w = p.weights_scaled(p.b.x * r, p.b.y * r, r);
            w.0 == w.2 && w.1 == 0
        }),
        p.n.z != 0 ==> ({
            let w = p.weights_scaled(p.c.x * r, p.c.y * r, r);
            w.0 == 0 && w.1 == w.2
        }),
{
    let (ax, ay, bx, by, cx, cy) = (p.a.x * r, p.a.y * r, p.b.x * r, p.b.y * r, p.c.x * r, p.c.y
        * r);
    lemma_corner_weights(ax, ay, bx, by, cx, cy);
    lemma_projection_divisor(p, r);
}

/// The weights at the corners `A`, `B`, `C` are `(0, 0)`, `(1, 0)` and
/// `(0, 1)`, or all zero where the determinant is zero.
proof fn lemma_corner_weights(ax: int, ay: int, bx: int, by: int, cx: int, cy: int)
    ensures
        ({
            let w = solve_weights(ax, ay, bx, by, cx, cy, ax, ay);
            w.0 == 0 && w.1 == 0 && w.2 > 0
        }),
        ({
            let w = solve_weights(ax, ay, bx, by, cx, cy, bx, by);
            if (by - ay) * (cx - ax) - (bx - ax) * (cy - ay) != 0 {
                w.0 == w.2 && w.1 == 0 && w.2 > 0
            } else {
                w == (0int, 0int, 1int)
            }
        }),
        ({
            let w = solve_weights(ax, ay, bx, by, cx, cy, cx, cy);
            if (by - ay) * (cx - ax) - (bx - ax) * (cy - ay) != 0 {
                w.0 == 0 && w.1 == w.2 && w.2 > 0
            } else {
                w == (0int, 0int, 1int)
            }
        }),
{
    let s0 = cy - ay;
    let s2 = cx - ax;
    let s3 = by - ay;
    let s4 = bx - ax;
    assert(0 * s2 - 0 * s0 == 0 && s3 * 0 - s4 * 0 == 0) by (nonlinear_arith);
    assert(s3 * s4 - s4 * s3 == 0) by (nonlinear_arith);
    assert(s0 * s2 - s2 * s0 == 0) by (nonlinear_arith);
}

/// A vertical triangle marks only the columns under it: a sample tests
/// inside exactly where it lies on the triangle's projection on XY (a
/// segment, or a point).
pub proof fn lemma_vertical_inside_on_projection(p: TriangularPlane, xs: int, ys: int, r: int)
    requires
        p.wf(),
        p.n.z == 0,
        r >= 1,
    ensures
        inside(p.weights_at(xs, ys, r)) == on_degenerate_projection(
            p.a.x * r,
            p.a.y * r,
            p.b.x * r,
            p.b.y * r,
            p.c.x * r,
            p.c.y * r,
            xs * FIXED_ONE,
            ys * FIXED_ONE,
        ),
{
    lemma_projection_divisor(p, r);
}

/// Multiplying a fraction by `m > 0` above and below keeps its sign
/// normalization: `signed(m * n, m * d) == m * signed(n, d)`.
proof fn lemma_signed_scale(n: int, d: int, m: int)
    requires
        m > 0,
    ensures
        signed(m * n, m * d).0 == m * signed(n, d).0,
        signed(m * n, m * d).1 == m * signed(n, d).1,
{
    assert((d < 0) == (m * d < 0)) by (nonlinear_arith)
        requires
            m > 0,
    ;
    assert(-(m * n) == m * (-n) && -(m * d) == m * (-d)) by (nonlinear_arith);
}

/// The inside test is unchanged when the weight numbers are multiplied by
/// one positive factor.
proof fn lemma_inside_scale(w: (int, int, int), m: int)
    requires
        m > 0,
    ensures
        inside((m * w.0, m * w.1, m * w.2)) == inside(w),
{
    let (n1, n2, d) = w;
    assert((m * n1 >= 0) == (n1 >= 0) && (m * n2 >= 0) == (n2 >= 0)) by (nonlinear_arith)
        requires
            m > 0,
    ;
    assert((m * n1 + m * n2 <= m * d) == (n1 + n2 <= d)) by (nonlinear_arith)
        requires
            m > 0,
    ;
}

/// Scaling every coordinate by `c >= 1` multiplies the three weight numbers
/// by one positive factor (`c * c`), so the inside test is unchanged.
pub proof fn lemma_solve_weights_scale(
    ax: int,
    ay: int,
    bx: int,
    by: int,
    cx: int,
    cy: int,
    px: int,
    py: int,
    c: int,
)
    requires
        c >= 1,
    ensures
        inside(solve_weights(ax * c, ay * c, bx * c, by * c, cx * c, cy * c, px * c, py * c))
            == inside(solve_weights(ax, ay, bx, by, cx, cy, px, py)),
{
    let s0 = cy - ay;
    let s1 = py - ay;
    let s2 = cx - ax;
    let s3 = by - ay;
    let s4 = bx - ax;
    let t = px - ax;
    let den1 = s3 * s2 - s4 * s0;
    let num1 = s1 * s2 - t * s0;
    lemma_scaled_diff(cy, ay, c);
    lemma_scaled_diff(py, ay, c);
    lemma_scaled_diff(cx, ax, c);
    lemma_scaled_diff(by, ay, c);
    lemma_scaled_diff(bx, ax, c);
    lemma_scaled_diff(px, ax, c);
    let cc = c * c;
    assert(cc > 0) by (nonlinear_arith)
        requires
            c >= 1,
            cc == c * c,
    ;
    lemma_mul_swap(s3, s2, c, c);
    lemma_mul_swap(s4, s0, c, c);
    lemma_mul_swap(s1, s2, c, c);
    lemma_mul_swap(t, s0, c, c);
    lemma_mul_swap(s3, t, c, c);
    lemma_mul_swap(s4, s1, c, c);
    let num2 = s3 * t - s4 * s1;
    let den1c = (s3 * c) * (s2 * c) - (s4 * c) * (s0 * c);
    let num1c = (s1 * c) * (s2 * c) - (t * c) * (s0 * c);
    let num2c = (s3 * c) * (t * c) - (s4 * c) * (s1 * c);
    assert(den1c == cc * den1 && num1c == cc * num1 && num2c == cc * num2) by (nonlinear_arith)
        requires
            den1c == (s3 * s2) * cc - (s4 * s0) * cc,
            num1c == (s1 * s2) * cc - (t * s0) * cc,
            num2c == (s3 * t) * cc - (s4 * s1) * cc,
            den1 == s3 * s2 - s4 * s0,
            num1 == s1 * s2 - t * s0,
            num2 == s3 * t - s4 * s1,
    ;
    assert((den1c != 0) == (den1 != 0)) by (nonlinear_arith)
        requires
            den1c == cc * den1,
            cc > 0,
    ;
    let w = solve_weights(ax, ay, bx, by, cx, cy, px, py);
    let wc = solve_weights(ax * c, ay * c, bx * c, by * c, cx * c, cy * c, px * c, py * c);
    if den1 != 0 {
        lemma_signed_scale(num1, den1, cc);
        lemma_signed_scale(num2, den1, cc);
        lemma_inside_scale(w, cc);
        assert(wc == (cc * w.0, cc * w.1, cc * w.2));
    } else {
        lemma_on_projection_scale(ax, ay, bx, by, cx, cy, px, py, c);
    }
}

/// `a * c` and `b * c` compare as `a` and `b` do, for `c >= 1`.
proof fn lemma_le_scale(a: int, b: int, c: int)
    requires
        c >= 1,
    ensures
        (a * c <= b * c) == (a <= b),
        (a * c >= b * c) == (a >= b),
{
    assert((a * c <= b * c) == (a <= b)) by (nonlinear_arith)
        requires
            c >= 1,
    ;
    assert((a * c >= b * c) == (a >= b)) by (nonlinear_arith)
        requires
            c >= 1,
    ;
}

/// Lying on a degenerate projection does not depend on the common scale.
proof fn lemma_on_projection_scale(
    ax: int,
    ay: int,
    bx: int,
    by: int,
    cx: int,
    cy: int,
    px: int,
    py: int,
    c: int,
)
    requires
        c >= 1,
    ensures
        on_degenerate_projection(ax * c, ay * c, bx * c, by * c, cx * c, cy * c, px * c, py * c)
            == on_degenerate_projection(ax, ay, bx, by, cx, cy, px, py),
{
    let (s0, s1, s2, s3, s4, t) = (cy - ay, py - ay, cx - ax, by - ay, bx - ax, px - ax);
    lemma_scaled_diff(cy, ay, c);
    lemma_scaled_diff(py, ay, c);
    lemma_scaled_diff(cx, ax, c);
    lemma_scaled_diff(by, ay, c);
    lemma_scaled_diff(bx, ax, c);
    lemma_scaled_diff(px, ax, c);
    assert((s2 * c != 0 || s0 * c != 0) == (s2 != 0 || s0 != 0)) by (nonlinear_arith)
        requires
            c >= 1,
    ;
    let (dx, dy) = if s2 != 0 || s0 != 0 {
        (s2, s0)
    } else {
        (s4, s3)
    };
    lemma_mul_swap(t, dy, c, c);
    lemma_mul_swap(s1, dx, c, c);
    let cc = c * c;
    assert(cc > 0) by (nonlinear_arith)
        requires
            c >= 1,
            cc == c * c,
    ;
    assert(((t * dy) * cc - (s1 * dx) * cc == 0) == (t * dy - s1 * dx == 0)) by (nonlinear_arith)
        requires
            cc > 0,
    ;
    lemma_le_scale(ax, px, c);
    lemma_le_scale(bx, px, c);
    lemma_le_scale(cx, px, c);
    lemma_le_scale(ay, py, c);
    lemma_le_scale(by, py, c);
    lemma_le_scale(cy, py, c);
}

/// Rounding a fraction is unchanged by multiplying it above and below by
/// `c >= 1`.
pub proof fn lemma_round_div_scale(a: int, b: int, c: int)
    requires
        b > 0,
        c >= 1,
    ensures
        round_div(c * a, c * b) == round_div(a, b),
{
    let x = if a >= 0 { a } else { -a };
    assert(c * (2 * x + b) == 2 * (c * x) + c * b && c * (2 * b) == 2 * (c * b))
        by (nonlinear_arith);
    vstd::arithmetic::div_mod::lemma_div_multiples_vanish_quotient(c, 2 * x + b, 2 * b);
    assert((c * a >= 0) == (a >= 0)) by (nonlinear_arith)
        requires
            c >= 1,
    ;
    if a < 0 {
        assert(-(c * a) == c * x) by (nonlinear_arith)
            requires
                x == -a,
        ;
    }
}

/// Oversampling keeps every sample: the sample `(xs, ys)` at resolution `r`
/// is the sample `(c * xs, c * ys)` at resolution `c * r`, and there it has
/// the same inside test, the same cell `(xs / r, ys / r)` and, where the
/// plane is not vertical, the same rounded depth.
pub proof fn lemma_oversampling_keeps_samples(p: TriangularPlane, xs: int, ys: int, r: int, c: int)
    requires
        p.wf(),
        r >= 1,
        c >= 1,
        xs >= 0,
        ys >= 0,
    ensures
        inside(p.weights_at(c * xs, c * ys, c * r)) == inside(p.weights_at(xs, ys, r)),
        (c * xs) / (c * r) == xs / r,
        (c * ys) / (c * r) == ys / r,
        p.n.z != 0 ==> ({
            let (zn, zd) = p.depth_at(xs, ys, r);
            let (zn2, zd2) = p.depth_at(c * xs, c * ys, c * r);
            round_div(zn2, zd2) == round_div(zn, zd)
        }),
{
    let (ax, ay, bx, by, cx, cy) = (
        p.a.x as int,
        p.a.y as int,
        p.b.x as int,
        p.b.y as int,
        p.c.x as int,
        p.c.y as int,
    );
    assert(ax * (c * r) == (ax * r) * c && ay * (c * r) == (ay * r) * c && bx * (c * r) == (bx
        * r) * c && by * (c * r) == (by * r) * c && cx * (c * r) == (cx * r) * c && cy * (c * r)
        == (cy * r) * c && (c * xs) * 1024 == (xs * 1024) * c && (c * ys) * 1024 == (ys * 1024)
        * c) by (nonlinear_arith);
    lemma_solve_weights_scale(
        ax * r,
        ay * r,
        bx * r,
        by * r,
        cx * r,
        cy * r,
        xs * 1024,
        ys * 1024,
        c,
    );
    assert(c * r >= 1) by (nonlinear_arith)
        requires
            c >= 1,
            r >= 1,
    ;
    vstd::arithmetic::div_mod::lemma_div_multiples_vanish_quotient(c, xs, r);
    vstd::arithmetic::div_mod::lemma_div_multiples_vanish_quotient(c, ys, r);
    if p.n.z != 0 {
        let (k, nx, ny, nz) = (p.k as int, p.n.x as int, p.n.y as int, p.n.z as int);
        let e = k * r - nx * xs * 1024 - ny * ys * 1024;
        let g = nz * r * 1024;
        assert(k * (c * r) == c * (k * r)) by (nonlinear_arith);
        assert(nx * (c * xs) * 1024 == c * (nx * xs * 1024)) by (nonlinear_arith);
        assert(ny * (c * ys) * 1024 == c * (ny * ys * 1024)) by (nonlinear_arith);
        assert(nz * (c * r) * 1024 == c * g) by (nonlinear_arith)
            requires
                g == nz * r * 1024,
        ;
        assert(c * (k * r) - c * (nx * xs * 1024) - c * (ny * ys * 1024) == c * e)
            by (nonlinear_arith)
            requires
                e == k * r - nx * xs * 1024 - ny * ys * 1024,
        ;
        lemma_signed_scale(e, g, c);
        assert(g != 0) by (nonlinear_arith)
            requires
                nz != 0,
                r >= 1,
                g == nz * r * 1024,
        ;
        lemma_round_div_scale(signed(e, g).0, signed(e, g).1, c);
    }
}

/// The normal and offset of vertices in range stay within fixed bounds.
pub proof fn lemma_normal_bounds(a: Vec3, b: Vec3, c: Vec3)
    requires
        a.within(COORD_LIMIT as int),
        b.within(COORD_LIMIT as int),
        c.within(COORD_LIMIT as int),
    ensures
        -0x800_0000_0000 <= normal_x(a, b, c) <= 0x800_0000_0000,
        -0x800_0000_0000 <= normal_y(a, b, c) <= 0x800_0000_0000,
        -0x800_0000_0000 <= normal_z(a, b, c) <= 0x800_0000_0000,
        -0x4_0000_0000_0000_0000 <= offset(a, b, c) <= 0x4_0000_0000_0000_0000,
{
    let l: int = 0x20_0000;
    let l2: int = 0x400_0000_0000;
    lemma_mul_abs_le(a.y - b.y, a.z - c.z, l, l, l2);
    lemma_mul_abs_le(a.z - b.z, a.y - c.y, l, l, l2);
    lemma_mul_abs_le(a.z - b.z, a.x - c.x, l, l, l2);
    lemma_mul_abs_le(a.x - b.x, a.z - c.z, l, l, l2);
    lemma_mul_abs_le(a.x - b.x, a.y - c.y, l, l, l2);
    lemma_mul_abs_le(a.y - b.y, a.x - c.x, l, l, l2);
    let n: int = 0x800_0000_0000;
    let m: int = 0x8000_0000_0000_0000;
    lemma_mul_abs_le(normal_x(a, b, c), a.x as int, n, 0x10_0000, m);
    lemma_mul_abs_le(normal_y(a, b, c), a.y as int, n, 0x10_0000, m);
    lemma_mul_abs_le(normal_z(a, b, c), a.z as int, n, 0x10_0000, m);
}

} // verus!
