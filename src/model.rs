//! The mesh: vertices, triangular faces, and optional texture data.
use vstd::prelude::*;
use crate::arith::round_div;
use crate::coords::{rotated, Axis, Order, RotMtx};
use crate::texture::TextureImage;
use crate::utils::MinMax;
use crate::vec2::Vec2;
use crate::vec3::Vec3;
use crate::{COORD_LIMIT, FIXED_ONE};

verus! {

/// The vertex positions of a mesh.
pub struct Points(pub Vec<Vec3>);

/// `len / 3` points read from consecutive triples of a flat array.
pub open spec fn triples(v: Seq<i64>) -> Seq<Vec3> {
    Seq::new((v.len() / 3) as nat, |i: int| Vec3 { x: v[3 * i], y: v[3 * i + 1], z: v[3 * i + 2] })
}

/// `len / 2` points read from consecutive pairs of a flat array.
pub open spec fn pairs(v: Seq<i64>) -> Seq<Vec2> {
    Seq::new((v.len() / 2) as nat, |i: int| Vec2 { x: v[2 * i], y: v[2 * i + 1] })
}

/// `len / 3` index triples read from a flat index array.
pub open spec fn index_triples(v: Seq<u32>) -> Seq<[usize; 3]> {
    Seq::new(
        (v.len() / 3) as nat,
        |i: int| [v[3 * i] as usize, v[3 * i + 1] as usize, v[3 * i + 2] as usize],
    )
}

/// Every index of every triple is below `n`.
pub open spec fn indices_below(faces: Seq<[usize; 3]>, n: int) -> bool {
    forall|i: int, k: int| 0 <= i < faces.len() && 0 <= k < 3 ==> #[trigger] faces[i][k] < n
}

impl Points {
    /// The points of a flat `x, y, z, x, y, z, ...` array; a trailing
    /// incomplete triple is ignored.
    pub fn from_flat_vec(v: Vec<i64>) -> (r: Points)
        ensures
            r.0@ == triples(v@),
    {
        let mut out: Vec<Vec3> = Vec::new();
        let len = v.len();
        let n = len / 3;
        let mut i: usize = 0;
        while i < n
            invariant
                i <= n,
                n == v@.len() / 3,
                len == v@.len(),
                out@ == triples(v@).take(i as int),
            decreases n - i,
        {
            out.push(Vec3::new(v[3 * i], v[3 * i + 1], v[3 * i + 2]));
            i = i + 1;
            assert(out@ =~= triples(v@).take(i as int));
        }
        assert(out@ =~= triples(v@));
        Points(out)
    }
}

/// The triangles of a mesh, as indices into its vertices.
pub struct Faces(pub Vec<[usize; 3]>);

impl Faces {
    /// The triangles of a flat index array; a trailing incomplete triple is
    /// ignored.
    pub fn from_triangles(indices: Vec<u32>) -> (r: Self)
        ensures
            r.0@ == index_triples(indices@),
    {
        Faces(group_triples(&indices))
    }
}

/// The texture coordinates of a mesh.
pub struct TextureCoords(pub Vec<Vec2>);

impl TextureCoords {
    /// The coordinates of a flat `u, v, u, v, ...` array, or `None` where the
    /// array is empty or of odd length.
    pub fn from_flat_vec(v: Vec<i64>) -> (r: Option<Self>)
        ensures
            r is None <==> (v@.len() % 2 != 0 || v@.len() == 0),
            r matches Some(c) ==> c.0@ == pairs(v@),
    {
        if v.len() % 2 != 0 || v.len() == 0 {
            return None;
        }
        let mut out: Vec<Vec2> = Vec::new();
        let len = v.len();
        let n = len / 2;
        let mut i: usize = 0;
        while i < n
            invariant
                i <= n,
                n == v@.len() / 2,
                len == v@.len(),
                out@ == pairs(v@).take(i as int),
            decreases n - i,
        {
            out.push(Vec2::new(v[2 * i], v[2 * i + 1]));
            i = i + 1;
            assert(out@ =~= pairs(v@).take(i as int));
        }
        assert(out@ =~= pairs(v@));
        Some(TextureCoords(out))
    }
}

/// The texture triangles of a mesh, as indices into its texture coordinates.
pub struct TextureFaces(pub Vec<[usize; 3]>);

impl TextureFaces {
    /// The texture triangles of a flat index array, or `None` where the array
    /// is empty or its length is not a multiple of three.
    pub fn from_triangles(indices: Vec<u32>) -> (r: Option<Self>)
        ensures
            r is None <==> (indices@.len() % 3 != 0 || indices@.len() == 0),
            r matches Some(f) ==> f.0@ == index_triples(indices@),
    {
        if indices.len() % 3 != 0 || indices.len() == 0 {
            return None;
        }
        Some(Self(group_triples(&indices)))
    }
}

fn group_triples(indices: &Vec<u32>) -> (r: Vec<[usize; 3]>)
    ensures
        r@ == index_triples(indices@),
{
    let len = indices.len();
    let n = len / 3;
    let mut faces: Vec<[usize; 3]> = Vec::new();
    let mut f: usize = 0;
    while f < n
        invariant
            f <= n,
            n == indices@.len() / 3,
            len == indices@.len(),
            faces@ == index_triples(indices@).take(f as int),
        decreases n - f,
    {
        let t = [indices[3 * f] as usize, indices[3 * f + 1] as usize, indices[3 * f + 2] as usize];
        faces.push(t);
        f = f + 1;
        assert(faces@ =~= index_triples(indices@).take(f as int));
    }
    assert(faces@ =~= index_triples(indices@));
    faces
}

/// The componentwise smaller of two points.
pub open spec fn vmin(a: Vec3, b: Vec3) -> Vec3 {
    Vec3 {
        x: if b.x < a.x { b.x } else { a.x },
        y: if b.y < a.y { b.y } else { a.y },
        z: if b.z < a.z { b.z } else { a.z },
    }
}

/// The componentwise larger of two points.
pub open spec fn vmax(a: Vec3, b: Vec3) -> Vec3 {
    Vec3 {
        x: if b.x > a.x { b.x } else { a.x },
        y: if b.y > a.y { b.y } else { a.y },
        z: if b.z > a.z { b.z } else { a.z },
    }
}

/// The bounding box `(min corner, max corner)` of a non-empty point sequence.
pub open spec fn bbox(vs: Seq<Vec3>) -> (Vec3, Vec3)
    decreases vs.len(),
{
    if vs.len() <= 1 {
        (vs[0], vs[0])
    } else {
        let (lo, hi) = bbox(vs.drop_last());
        (vmin(lo, vs.last()), vmax(hi, vs.last()))
    }
}

/// Every point lies in the bounding box.
pub proof fn lemma_bbox_contains(vs: Seq<Vec3>, i: int)
    requires
        0 <= i < vs.len(),
    ensures
        ({
            let (lo, hi) = bbox(vs);
            lo.x <= vs[i].x <= hi.x && lo.y <= vs[i].y <= hi.y && lo.z <= vs[i].z <= hi.z
        }),
    decreases vs.len(),
{
    if vs.len() > 1 && i < vs.len() - 1 {
        lemma_bbox_contains(vs.drop_last(), i);
    }
}

/// The factor `size / (hi - lo)` in fixed point, rounded; `None` where
/// `lo == hi`.
pub open spec fn axis_ratio(lo: i64, hi: i64, size: i64) -> Option<i64> {
    if lo == hi {
        None
    } else {
        Some(round_div(size * FIXED_ONE, hi - lo) as i64)
    }
}

/// The per-axis factors that fit the bounding box of `vs` into `size`.
pub open spec fn box_ratios(vs: Seq<Vec3>, size: Vec3) -> (Option<i64>, Option<i64>, Option<i64>) {
    if vs.len() == 0 {
        (None, None, None)
    } else {
        let (lo, hi) = bbox(vs);
        (axis_ratio(lo.x, hi.x, size.x), axis_ratio(lo.y, hi.y, size.y), axis_ratio(lo.z, hi.z, size.z))
    }
}

/// The smaller of two optional values; a missing value does not count.
pub open spec fn smaller(a: Option<i64>, b: Option<i64>) -> Option<i64> {
    match (a, b) {
        (Some(x), Some(y)) => Some(if x <= y { x } else { y }),
        (Some(x), None) => Some(x),
        (None, _) => b,
    }
}

/// `v` moved by `m`.
pub open spec fn shifted(v: Vec3, m: Vec3) -> Vec3 {
    Vec3 { x: (v.x + m.x) as i64, y: (v.y + m.y) as i64, z: (v.z + m.z) as i64 }
}

/// The sum `v + m` fits every component.
pub open spec fn shiftable(v: Vec3, m: Vec3) -> bool {
    &&& i64::MIN <= v.x + m.x <= i64::MAX
    &&& i64::MIN <= v.y + m.y <= i64::MAX
    &&& i64::MIN <= v.z + m.z <= i64::MAX
}

/// `v` scaled componentwise by the fixed-point factors `f`, rounded.
pub open spec fn scaled(v: Vec3, f: Vec3) -> Vec3 {
    Vec3 {
        x: round_div(v.x * f.x, FIXED_ONE as int) as i64,
        y: round_div(v.y * f.y, FIXED_ONE as int) as i64,
        z: round_div(v.z * f.z, FIXED_ONE as int) as i64,
    }
}

/// Bound on the coordinates and factors that `scale` accepts.
pub const SCALE_LIMIT: i64 = 0x8000_0000;

/// Bound on the coordinates that `rotate` accepts.
pub const ROTATE_LIMIT: i64 = 0x100_0000_0000_0000;

/// Bound on the box sizes that `scale_for_box` accepts.
pub const BOX_LIMIT: i64 = 0x100_0000_0000;

/// A triangulated mesh with optional texture data.
pub struct Model {
    pub vertices: Points,
    pub faces: Faces,
    pub texture_img: Option<TextureImage>,
    pub texture_coords: Option<TextureCoords>,
    pub texture_faces: Option<TextureFaces>,
}

impl Model {
    /// Indices are valid, coordinates are in range, and the image is whole.
    /// "In range" is `COORD_LIMIT`: 1024 units of length, so a model fitted
    /// into a grid wider than 1024 cells along an axis is not well formed.
    pub open spec fn wf(self) -> bool {
        &&& forall|i: int|
            0 <= i < self.vertices.0@.len() ==> #[trigger] self.vertices.0@[i].within(
                COORD_LIMIT as int,
            )
        &&& indices_below(self.faces.0@, self.vertices.0@.len() as int)
        &&& self.texture_coords matches Some(tc) ==> forall|i: int|
            0 <= i < tc.0@.len() ==> #[trigger] tc.0@[i].within(COORD_LIMIT as int)
        &&& match (self.texture_coords, self.texture_faces) {
            (Some(tc), Some(tf)) => indices_below(tf.0@, tc.0@.len() as int),
            _ => true,
        }
        &&& self.texture_img matches Some(img) ==> img.wf()
    }

    pub fn new(
        vertices: Points,
        faces: Faces,
        texture_img: Option<TextureImage>,
        texture_coords: Option<TextureCoords>,
        texture_faces: Option<TextureFaces>,
    ) -> (r: Self)
        ensures
            r == (Model { vertices, faces, texture_img, texture_coords, texture_faces }),
    {
        Model { vertices, faces, texture_img, texture_coords, texture_faces }
    }

    /// The bounding box of the vertices, or `None` for a mesh without any.
    pub fn model_dims(&self) -> (r: Option<(Vec3, Vec3)>)
        ensures
            r is None <==> self.vertices.0@.len() == 0,
            r matches Some(b) ==> b == bbox(self.vertices.0@),
    {
        let vs = &self.vertices.0;
        let n = vs.len();
        if n == 0 {
            return None;
        }
        let p = vs[0];
        let mut x = MinMax::new(p.x, p.x);
        let mut y = MinMax::new(p.y, p.y);
        let mut z = MinMax::new(p.z, p.z);
        let mut i: usize = 1;
        assert(vs@.take(1).drop_last() =~= Seq::<Vec3>::empty());
        while i < n
            invariant
                1 <= i <= n,
                n == vs@.len(),
                x.wf() && y.wf() && z.wf(),
                bbox(vs@.take(i as int)) == (
                    Vec3 { x: x.min, y: y.min, z: z.min },
                    Vec3 { x: x.max, y: y.max, z: z.max },
                ),
            decreases n - i,
        {
            let v = vs[i];
            x.update(v.x);
            y.update(v.y);
            z.update(v.z);
            assert(vs@.take(i as int + 1).drop_last() =~= vs@.take(i as int));
            i = i + 1;
        }
        assert(vs@.take(n as int) =~= vs@);
        Some((Vec3::new(x.min, y.min, z.min), Vec3::new(x.max, y.max, z.max)))
    }

    /// Moves every vertex by `move_vec`.
    pub fn mv(&mut self, move_vec: Vec3)
        requires
            forall|i: int|
                0 <= i < old(self).vertices.0@.len() ==> shiftable(
                    #[trigger] old(self).vertices.0@[i],
                    move_vec,
                ),
        ensures
            final(self).vertices.0@.len() == old(self).vertices.0@.len(),
            forall|i: int|
                0 <= i < old(self).vertices.0@.len() ==> #[trigger] final(self).vertices.0@[i]
                    == shifted(old(self).vertices.0@[i], move_vec),
            final(self).faces == old(self).faces,
            final(self).texture_img == old(self).texture_img,
            final(self).texture_coords == old(self).texture_coords,
            final(self).texture_faces == old(self).texture_faces,
    {
        let n = self.vertices.0.len();
        let mut i: usize = 0;
        while i < n
            invariant
                i <= n,
                n == self.vertices.0@.len(),
                n == old(self).vertices.0@.len(),
                forall|j: int|
                    0 <= j < n ==> shiftable(#[trigger] old(self).vertices.0@[j], move_vec),
                forall|j: int|
                    0 <= j < i ==> #[trigger] self.vertices.0@[j] == shifted(
                        old(self).vertices.0@[j],
                        move_vec,
                    ),
                forall|j: int| i <= j < n ==> #[trigger] self.vertices.0@[j] == old(self).vertices.0@[j],
                self.faces == old(self).faces,
                self.texture_img == old(self).texture_img,
                self.texture_coords == old(self).texture_coords,
                self.texture_faces == old(self).texture_faces,
            decreases n - i,
        {
            let v = self.vertices.0[i];
            assert(shiftable(old(self).vertices.0@[i as int], move_vec));
            let w = Vec3::new(v.x + move_vec.x, v.y + move_vec.y, v.z + move_vec.z);
            self.vertices.0.set(i, w);
            i = i + 1;
        }
    }

    /// Rotates every vertex by the three axis matrices, in the given order.
    pub fn rotate(&mut self, x_mtx: &RotMtx, y_mtx: &RotMtx, z_mtx: &RotMtx, order: Order)
        requires
            x_mtx.wf() && y_mtx.wf() && z_mtx.wf(),
            forall|i: int|
                0 <= i < old(self).vertices.0@.len() ==> (#[trigger] old(self).vertices.0@[i]).within(
                    ROTATE_LIMIT as int,
                ),
        ensures
            final(self).vertices.0@.len() == old(self).vertices.0@.len(),
            forall|i: int|
                0 <= i < old(self).vertices.0@.len() ==> #[trigger] final(self).vertices.0@[i]
                    == rotated(old(self).vertices.0@[i], order.axes(), *x_mtx, *y_mtx, *z_mtx),
            final(self).faces == old(self).faces,
            final(self).texture_img == old(self).texture_img,
            final(self).texture_coords == old(self).texture_coords,
            final(self).texture_faces == old(self).texture_faces,
    {
        let axes = order.order_arr();
        let n = self.vertices.0.len();
        let mut i: usize = 0;
        while i < n
            invariant
                i <= n,
                n == self.vertices.0@.len(),
                n == old(self).vertices.0@.len(),
                axes@ == order.axes(),
                x_mtx.wf() && y_mtx.wf() && z_mtx.wf(),
                forall|j: int|
                    0 <= j < n ==> (#[trigger] old(self).vertices.0@[j]).within(ROTATE_LIMIT as int),
                forall|j: int|
                    0 <= j < i ==> #[trigger] self.vertices.0@[j] == rotated(
                        old(self).vertices.0@[j],
                        order.axes(),
                        *x_mtx,
                        *y_mtx,
                        *z_mtx,
                    ),
                forall|j: int| i <= j < n ==> #[trigger] self.vertices.0@[j] == old(self).vertices.0@[j],
                self.faces == old(self).faces,
                self.texture_img == old(self).texture_img,
                self.texture_coords == old(self).texture_coords,
                self.texture_faces == old(self).texture_faces,
            decreases n - i,
        {
            let v0 = self.vertices.0[i];
            assert(v0.within(ROTATE_LIMIT as int));
            let m0 = pick_mtx(axes[0], x_mtx, y_mtx, z_mtx);
            proof {
                crate::coords::lemma_apply_bound(*m0, v0, ROTATE_LIMIT as int);
            }
            let v1 = m0.mul(v0);
            let m1 = pick_mtx(axes[1], x_mtx, y_mtx, z_mtx);
            proof {
                crate::coords::lemma_apply_bound(*m1, v1, 3 * ROTATE_LIMIT as int);
            }
            let v2 = m1.mul(v1);
            let m2 = pick_mtx(axes[2], x_mtx, y_mtx, z_mtx);
            proof {
                crate::coords::lemma_apply_bound(*m2, v2, 9 * ROTATE_LIMIT as int);
            }
            let v3 = m2.mul(v2);
            self.vertices.0.set(i, v3);
            i = i + 1;
        }
    }

    /// Per axis, the factor `box_size / (max - min)` that fits the bounding
    /// box into `box_size`, in fixed point and rounded; `None` for an axis
    /// along which the mesh has no extent, and for every axis of a mesh
    /// without vertices.
    pub fn scale_for_box(&self, box_size: Vec3) -> (r: (Option<i64>, Option<i64>, Option<i64>))
        requires
            box_size.within(BOX_LIMIT as int),
        ensures
            r == box_ratios(self.vertices.0@, box_size),
    {
        match self.model_dims() {
            None => (None, None, None),
            Some((lo, hi)) => {
                proof {
                    lemma_bbox_contains(self.vertices.0@, 0);
                }
                (
                    fit_factor(box_size.x, lo.x, hi.x),
                    fit_factor(box_size.y, lo.y, hi.y),
                    fit_factor(box_size.z, lo.z, hi.z),
                )
            },
        }
    }

    /// The uniform factor that fits the mesh into `box_size` keeping its
    /// aspect ratio: the smallest of the per-axis factors that exist; `None`
    /// where no axis has extent.
    pub fn fit_scale(&self, box_size: Vec3) -> (r: Option<i64>)
        requires
            box_size.within(BOX_LIMIT as int),
        ensures
            r == smaller(smaller(box_ratios(self.vertices.0@, box_size).0, box_ratios(self.vertices.0@, box_size).1), box_ratios(self.vertices.0@, box_size).2),
    {
        let (x, y, z) = self.scale_for_box(box_size);
        min_some(min_some(x, y), z)
    }

    /// Scales every vertex componentwise by the fixed-point factors `scale`.
    pub fn scale(&mut self, scale: Vec3)
        requires
            scale.within(SCALE_LIMIT as int),
            forall|i: int|
                0 <= i < old(self).vertices.0@.len() ==> (#[trigger] old(self).vertices.0@[i]).within(
                    SCALE_LIMIT as int,
                ),
        ensures
            final(self).vertices.0@.len() == old(self).vertices.0@.len(),
            forall|i: int|
                0 <= i < old(self).vertices.0@.len() ==> #[trigger] final(self).vertices.0@[i]
                    == scaled(old(self).vertices.0@[i], scale),
            final(self).faces == old(self).faces,
            final(self).texture_img == old(self).texture_img,
            final(self).texture_coords == old(self).texture_coords,
            final(self).texture_faces == old(self).texture_faces,
    {
        let n = self.vertices.0.len();
        let mut i: usize = 0;
        while i < n
            invariant
                i <= n,
                n == self.vertices.0@.len(),
                n == old(self).vertices.0@.len(),
                scale.within(SCALE_LIMIT as int),
                forall|j: int|
                    0 <= j < n ==> (#[trigger] old(self).vertices.0@[j]).within(SCALE_LIMIT as int),
                forall|j: int|
                    0 <= j < i ==> #[trigger] self.vertices.0@[j] == scaled(
                        old(self).vertices.0@[j],
                        scale,
                    ),
                forall|j: int| i <= j < n ==> #[trigger] self.vertices.0@[j] == old(self).vertices.0@[j],
                self.faces == old(self).faces,
                self.texture_img == old(self).texture_img,
                self.texture_coords == old(self).texture_coords,
                self.texture_faces == old(self).texture_faces,
            decreases n - i,
        {
            let v = self.vertices.0[i];
            assert(v.within(SCALE_LIMIT as int));
            let w = Vec3::new(scale_coord(v.x, scale.x), scale_coord(v.y, scale.y), scale_coord(v.z, scale.z));
            self.vertices.0.set(i, w);
            i = i + 1;
        }
    }
}

impl Model {
    /// Checks what `wf` states, for callers outside verified code.
    pub fn is_valid(&self) -> (r: bool)
        ensures
            r == self.wf(),
    {
        let nv = self.vertices.0.len();
        if !all_within3(&self.vertices.0) || !all_below(&self.faces.0, nv) {
            return false;
        }
        let coords_ok = match &self.texture_coords {
            Some(tc) => all_within2(&tc.0),
            None => true,
        };
        let uv_ok = match (&self.texture_coords, &self.texture_faces) {
            (Some(tc), Some(tf)) => all_below(&tf.0, tc.0.len()),
            _ => true,
        };
        let img_ok = match &self.texture_img {
            Some(img) => {
                let w = img.width as u64;
                let h = img.height as u64;
                proof {
                    crate::arith::lemma_mul_abs_le(w as int, h as int, 0xffff_ffff, 0xffff_ffff, 0xffff_fffe_0000_0001);
                }
                img.pixels.len() as u64 == w * h
            },
            None => true,
        };
        coords_ok && uv_ok && img_ok
    }
}

fn all_within3(vs: &Vec<Vec3>) -> (r: bool)
    ensures
        r == forall|i: int| 0 <= i < vs@.len() ==> #[trigger] vs@[i].within(COORD_LIMIT as int),
{
    let mut i: usize = 0;
    while i < vs.len()
        invariant
            i <= vs@.len(),
            forall|j: int| 0 <= j < i ==> #[trigger] vs@[j].within(COORD_LIMIT as int),
        decreases vs@.len() - i,
    {
        let v = vs[i];
        if !(-COORD_LIMIT <= v.x && v.x <= COORD_LIMIT && -COORD_LIMIT <= v.y && v.y <= COORD_LIMIT
            && -COORD_LIMIT <= v.z && v.z <= COORD_LIMIT) {
            assert(!vs@[i as int].within(COORD_LIMIT as int));
            return false;
        }
        i = i + 1;
    }
    true
}

fn all_within2(vs: &Vec<Vec2>) -> (r: bool)
    ensures
        r == forall|i: int| 0 <= i < vs@.len() ==> #[trigger] vs@[i].within(COORD_LIMIT as int),
{
    let mut i: usize = 0;
    while i < vs.len()
        invariant
            i <= vs@.len(),
            forall|j: int| 0 <= j < i ==> #[trigger] vs@[j].within(COORD_LIMIT as int),
        decreases vs@.len() - i,
    {
        let v = vs[i];
        if !(-COORD_LIMIT <= v.x && v.x <= COORD_LIMIT && -COORD_LIMIT <= v.y && v.y <= COORD_LIMIT) {
            assert(!vs@[i as int].within(COORD_LIMIT as int));
            return false;
        }
        i = i + 1;
    }
    true
}

fn all_below(faces: &Vec<[usize; 3]>, n: usize) -> (r: bool)
    ensures
        r == indices_below(faces@, n as int),
{
    let mut i: usize = 0;
    while i < faces.len()
        invariant
            i <= faces@.len(),
            forall|j: int, k: int| 0 <= j < i && 0 <= k < 3 ==> #[trigger] faces@[j][k] < n,
        decreases faces@.len() - i,
    {
        let f = faces[i];
        if !(f[0] < n && f[1] < n && f[2] < n) {
            assert(!(faces@[i as int][0] < n && faces@[i as int][1] < n && faces@[i as int][2] < n));
            return false;
        }
        assert(forall|k: int| 0 <= k < 3 ==> #[trigger] faces@[i as int][k] < n) by {
            assert(faces@[i as int][0] == f[0]);
        }
        i = i + 1;
    }
    true
}

fn pick_mtx<'a>(axis: Axis, x: &'a RotMtx, y: &'a RotMtx, z: &'a RotMtx) -> (r: &'a RotMtx)
    ensures
        r.0 == crate::coords::pick(axis, *x, *y, *z),
        *r == *x || *r == *y || *r == *z,
{
    match axis {
        Axis::X => x,
        Axis::Y => y,
        Axis::Z => z,
    }
}

fn scale_coord(v: i64, f: i64) -> (r: i64)
    requires
        -SCALE_LIMIT <= v <= SCALE_LIMIT,
        -SCALE_LIMIT <= f <= SCALE_LIMIT,
    ensures
        r == round_div(v * f, FIXED_ONE as int),
{
    proof {
        crate::arith::lemma_mul_abs_le(v as int, f as int, 0x8000_0000, 0x8000_0000, 0x4000_0000_0000_0000);
        crate::arith::lemma_round_div_le(v * f, 1024);
    }
    crate::arith::round_div_i128(v as i128 * f as i128, FIXED_ONE as i128) as i64
}

fn fit_factor(size: i64, lo: i64, hi: i64) -> (r: Option<i64>)
    requires
        -BOX_LIMIT <= size <= BOX_LIMIT,
        lo <= hi,
    ensures
        r == axis_ratio(lo, hi, size),
{
    if lo == hi {
        return None;
    }
    proof {
        crate::arith::lemma_mul_abs_le(size as int, 1024, 0x100_0000_0000, 1024, 0x4_0000_0000_0000);
        crate::arith::lemma_round_div_le(size * 1024, hi - lo);
    }
    Some(crate::arith::round_div_i128(size as i128 * FIXED_ONE as i128, hi as i128 - lo as i128) as i64)
}

fn min_some(a: Option<i64>, b: Option<i64>) -> (r: Option<i64>)
    ensures
        r == smaller(a, b),
{
    match (a, b) {
        (Some(x), Some(y)) => Some(if x <= y { x } else { y }),
        (Some(x), None) => Some(x),
        (None, _) => b,
    }
}

} // verus!
