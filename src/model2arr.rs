//! The voxelization driver: samples every triangle of a mesh over its
//! bounding box and writes the filled cells into a voxel grid.
//!
//! The grid that `voxelize` returns is given exactly by `voxel_grid`, a fold
//! over faces, then sample columns `xs`, then sample rows `ys`, then (for a
//! vertical triangle) sample layers `zs`; the last write to a cell wins.
use vstd::prelude::*;
use crate::arith::{round_div, round_div_i128};
use crate::grid::{cell_count, cell_index, in_grid, write_cell, ArrayModel, CoordXYZ};
use crate::model::{Model, TextureCoords, TextureFaces};
use crate::plane::{inside, max3, min3, normal_x, normal_y, normal_z, offset, TriangularPlane};
use crate::texture::{
    get_texture_id,
    precompute_imgs,
    texture_id,
    TextureImage,
    TexturePlane,
    TextureStat,
    DEFAULT_TEXTURE_ID,
};
use crate::vec2::Vec2;
use crate::vec3::Vec3;
use crate::{Block, COORD_LIMIT, FIXED_ONE, MAX_RESOLUTION};

verus! {

/// Empty cell of a grid without texture classification.
pub const EMPTY_BLOCK: Block = 0;

/// First sample index of a bound `lo`: `lo * r` rounded, and at least `0`.
pub open spec fn range_start(lo: int, r: int) -> int {
    let s = round_div(lo * r, FIXED_ONE as int);
    if s < 0 {
        0
    } else {
        s
    }
}

/// One past the last sample index of a bound `hi`.
pub open spec fn range_end(hi: int, r: int) -> int {
    range_start(hi, r) + 1
}

/// The sampling range `[start, end)` of the bounds `[min, max]` at
/// resolution `r`: both bounds scaled by `r` and rounded, the end inclusive.
pub fn make_range(min: i64, max: i64, resolution: u16) -> (r: (i64, i64))
    requires
        -COORD_LIMIT <= min <= COORD_LIMIT,
        -COORD_LIMIT <= max <= COORD_LIMIT,
        1 <= resolution <= MAX_RESOLUTION,
    ensures
        r.0 == range_start(min as int, resolution as int),
        r.1 == range_end(max as int, resolution as int),
        0 <= r.0 <= 0x10_0000,
        1 <= r.1 <= 0x10_0001,
{
    (scaled_index(min, resolution), scaled_index(max, resolution) + 1)
}

/// The sampling ranges of a bounding box along X, Y and Z.
pub fn bounds_to_range(bounds: (Vec3, Vec3), resolution: u16) -> (r: ((i64, i64), (i64, i64), (i64, i64)))
    requires
        bounds.0.within(COORD_LIMIT as int),
        bounds.1.within(COORD_LIMIT as int),
        1 <= resolution <= MAX_RESOLUTION,
    ensures
        r.0.0 == range_start(bounds.0.x as int, resolution as int),
        r.0.1 == range_end(bounds.1.x as int, resolution as int),
        r.1.0 == range_start(bounds.0.y as int, resolution as int),
        r.1.1 == range_end(bounds.1.y as int, resolution as int),
        r.2.0 == range_start(bounds.0.z as int, resolution as int),
        r.2.1 == range_end(bounds.1.z as int, resolution as int),
        0 <= r.0.0 && r.0.1 <= 0x10_0001,
        0 <= r.1.0 && r.1.1 <= 0x10_0001,
        0 <= r.2.0 && r.2.1 <= 0x10_0001,
{
    (
        make_range(bounds.0.x, bounds.1.x, resolution),
        make_range(bounds.0.y, bounds.1.y, resolution),
        make_range(bounds.0.z, bounds.1.z, resolution),
    )
}

fn scaled_index(v: i64, resolution: u16) -> (r: i64)
    requires
        -COORD_LIMIT <= v <= COORD_LIMIT,
        1 <= resolution <= MAX_RESOLUTION,
    ensures
        r == range_start(v as int, resolution as int),
        0 <= r <= 0x10_0000,
{
    proof {
        crate::arith::lemma_mul_abs_le(v as int, resolution as int, 0x10_0000, 0x400, 0x4000_0000);
    }
    let s = round_div_i128(v as i128 * resolution as i128, FIXED_ONE as i128);
    if s < 0 {
        0
    } else {
        s as i64
    }
}

/// The plane of the triangle `a, b, c` as `from_plane` builds it.
pub open spec fn plane_of(a: Vec3, b: Vec3, c: Vec3) -> TriangularPlane {
    TriangularPlane {
        a,
        b,
        c,
        n: Vec3 {
            x: normal_x(a, b, c) as i64,
            y: normal_y(a, b, c) as i64,
            z: normal_z(a, b, c) as i64,
        },
        k: offset(a, b, c) as i128,
    }
}

/// What sampling one face reads besides the grid, the image and the
/// texture statistics.
#[derive(Clone, Copy, Debug)]
pub struct FaceSampler {
    pub plane: TriangularPlane,
    pub texture_plane: Option<TexturePlane>,
    pub resolution: u16,
}

impl FaceSampler {
    pub open spec fn wf(self) -> bool {
        &&& self.plane.wf()
        &&& 1 <= self.resolution <= MAX_RESOLUTION
        &&& self.texture_plane matches Some(tp) ==> tp.wf()
    }

    pub open spec fn r(self) -> int {
        self.resolution as int
    }

    pub open spec fn x_range(self) -> (int, int) {
        let p = self.plane;
        (range_start(min3(p.a.x, p.b.x, p.c.x) as int, self.r()), range_end(max3(p.a.x, p.b.x, p.c.x) as int, self.r()))
    }

    pub open spec fn y_range(self) -> (int, int) {
        let p = self.plane;
        (range_start(min3(p.a.y, p.b.y, p.c.y) as int, self.r()), range_end(max3(p.a.y, p.b.y, p.c.y) as int, self.r()))
    }

    pub open spec fn z_range(self) -> (int, int) {
        let p = self.plane;
        (range_start(min3(p.a.z, p.b.z, p.c.z) as int, self.r()), range_end(max3(p.a.z, p.b.z, p.c.z) as int, self.r()))
    }
}

/// Writes `v` into the cells `(x, y, zs / r)` for `zs` in `[z0, z1)`: each
/// Z sample is taken down to its cell by integer division, as X and Y are.
pub open spec fn fill_column(
    g: Seq<Block>,
    dims: CoordXYZ,
    x: int,
    y: int,
    z0: int,
    z1: int,
    r: int,
    v: Block,
) -> Seq<Block>
    decreases z1 - z0,
{
    if z1 <= z0 {
        g
    } else {
        write_cell(fill_column(g, dims, x, y, z0, z1 - 1, r, v), dims, x, y, (z1 - 1) / r, v)
    }
}

/// The effect of the sample point `(xs / r, ys / r)` of one face: where it
/// lies inside the triangle, its cell column `(xs / r, ys / r)` is filled over
/// the whole Z range of a vertical triangle, or else at the rounded depth.
pub open spec fn sample_effect(
    g: Seq<Block>,
    dims: CoordXYZ,
    s: FaceSampler,
    img: Option<TextureImage>,
    stats: Seq<TextureStat>,
    xs: int,
    ys: int,
) -> Seq<Block> {
    let w = s.plane.weights_at(xs, ys, s.r());
    if !inside(w) {
        g
    } else {
        let v = texture_id(w, s.texture_plane, img, stats);
        let (x, y) = (xs / s.r(), ys / s.r());
        if s.plane.n.z == 0 {
            fill_column(g, dims, x, y, s.z_range().0, s.z_range().1, s.r(), v)
        } else {
            let (zn, zd) = s.plane.depth_at(xs, ys, s.r());
            write_cell(g, dims, x, y, round_div(zn, zd), v)
        }
    }
}

/// The samples `ys` in `[y0, y1)` of the column `xs`, in order.
pub open spec fn sweep_y(
    g: Seq<Block>,
    dims: CoordXYZ,
    s: FaceSampler,
    img: Option<TextureImage>,
    stats: Seq<TextureStat>,
    xs: int,
    y1: int,
) -> Seq<Block>
    decreases y1 - s.y_range().0,
{
    if y1 <= s.y_range().0 {
        g
    } else {
        sample_effect(sweep_y(g, dims, s, img, stats, xs, y1 - 1), dims, s, img, stats, xs, y1 - 1)
    }
}

/// The columns `xs` in `[x0, x1)` of one face, in order.
pub open spec fn sweep_x(
    g: Seq<Block>,
    dims: CoordXYZ,
    s: FaceSampler,
    img: Option<TextureImage>,
    stats: Seq<TextureStat>,
    x1: int,
) -> Seq<Block>
    decreases x1 - s.x_range().0,
{
    if x1 <= s.x_range().0 {
        g
    } else {
        let g1 = sweep_x(g, dims, s, img, stats, x1 - 1);
        sweep_y(g1, dims, s, img, stats, x1 - 1, s.y_range().1)
    }
}

/// All samples of one face.
pub open spec fn face_effect(
    g: Seq<Block>,
    dims: CoordXYZ,
    s: FaceSampler,
    img: Option<TextureImage>,
    stats: Seq<TextureStat>,
) -> Seq<Block> {
    sweep_x(g, dims, s, img, stats, s.x_range().1)
}

/// The texture-mapping plane of a model: built from its first texture face.
pub open spec fn texture_plane_of(m: Model) -> Option<TexturePlane> {
    mapping_plane(m.texture_faces, m.texture_coords)
}

/// The mapping plane of the first texture face, where there is one.
pub open spec fn mapping_plane(tf: Option<TextureFaces>, tc: Option<TextureCoords>) -> Option<
    TexturePlane,
> {
    match (tf, tc) {
        (Some(tf), Some(tc)) => if tf.0@.len() > 0 {
            let (a, b, c) = (tc.0@[tf.0@[0][0] as int], tc.0@[tf.0@[0][1] as int], tc.0@[tf.0@[0][2] as int]);
            Some(
                TexturePlane {
                    origin: a,
                    a2b: Vec2 { x: (b.x - a.x) as i64, y: (b.y - a.y) as i64 },
                    a2c: Vec2 { x: (c.x - a.x) as i64, y: (c.y - a.y) as i64 },
                },
            )
        } else {
            None
        },
        _ => None,
    }
}

/// The sampler of face `i` of a model.
pub open spec fn face_sampler(m: Model, i: int, r: int) -> FaceSampler {
    let f = m.faces.0@[i];
    let v = m.vertices.0@;
    FaceSampler {
        plane: plane_of(v[f[0] as int], v[f[1] as int], v[f[2] as int]),
        texture_plane: texture_plane_of(m),
        resolution: r as u16,
    }
}

/// Texture classification runs: the model has a mapping plane and an image.
pub open spec fn classifying(m: Model) -> bool {
    texture_plane_of(m) is Some && m.texture_img is Some
}

/// The empty value of the grid: `-1` where texture ids are assigned (so that
/// texture `0` stays distinct from empty), `0` otherwise.
pub open spec fn empty_block(m: Model) -> Block {
    if classifying(m) {
        DEFAULT_TEXTURE_ID
    } else {
        EMPTY_BLOCK
    }
}

/// The faces `[0, n)` of a model, in order.
pub open spec fn voxel_faces(
    g: Seq<Block>,
    m: Model,
    dims: CoordXYZ,
    r: int,
    stats: Seq<TextureStat>,
    n: int,
) -> Seq<Block>
    decreases n,
{
    if n <= 0 {
        g
    } else {
        face_effect(voxel_faces(g, m, dims, r, stats, n - 1), dims, face_sampler(m, n - 1, r), m.texture_img, stats)
    }
}

/// The voxel grid of a model: every cell empty, then every face in order.
pub open spec fn voxel_grid(m: Model, dims: CoordXYZ, r: int, stats: Seq<TextureStat>) -> Seq<Block> {
    voxel_faces(
        Seq::new(cell_count(dims) as nat, |i: int| empty_block(m)),
        m,
        dims,
        r,
        stats,
        m.faces.0@.len() as int,
    )
}

/// The statistics that `precompute_imgs` gives for the available textures.
pub open spec fn stats_of(t: Seq<(Block, TextureImage)>) -> Seq<TextureStat> {
    Seq::new(
        t.len(),
        |i: int|
            TextureStat {
                block: t[i].0,
                r_sum: crate::texture::channel_sum(t[i].1.pixels@, 0) as u128,
                r_sum_sq: crate::texture::channel_sum_sq(t[i].1.pixels@, 0) as u128,
                g_sum: crate::texture::channel_sum(t[i].1.pixels@, 1) as u128,
                g_sum_sq: crate::texture::channel_sum_sq(t[i].1.pixels@, 1) as u128,
                b_sum: crate::texture::channel_sum(t[i].1.pixels@, 2) as u128,
                b_sum_sq: crate::texture::channel_sum_sq(t[i].1.pixels@, 2) as u128,
                count: t[i].1.pixels@.len() as u128,
            },
    )
}

/// Voxelizing an unmodified model twice, with the same dimensions,
/// resolution and textures, gives identical grids: every grid that
/// `voxelize` or `model_2_arr` returns for these inputs is `voxel_grid` of
/// them.
pub proof fn lemma_voxelize_deterministic(
    m: Model,
    dims: CoordXYZ,
    r: int,
    stats: Seq<TextureStat>,
    first: Seq<Block>,
    second: Seq<Block>,
)
    requires
        first == voxel_grid(m, dims, r, stats),
        second == voxel_grid(m, dims, r, stats),
    ensures
        first == second,
        first.len() == cell_count(dims),
{
    lemma_voxel_faces_len(
        Seq::new(cell_count(dims) as nat, |i: int| empty_block(m)),
        m,
        dims,
        r,
        stats,
        m.faces.0@.len() as int,
    );
}

/// Voxelizing writes cells in place: the grid keeps its length.
pub proof fn lemma_voxel_faces_len(
    g: Seq<Block>,
    m: Model,
    dims: CoordXYZ,
    r: int,
    stats: Seq<TextureStat>,
    n: int,
)
    requires
        g.len() == cell_count(dims),
    ensures
        voxel_faces(g, m, dims, r, stats, n).len() == g.len(),
    decreases n,
{
    if n > 0 {
        lemma_voxel_faces_len(g, m, dims, r, stats, n - 1);
        let s = face_sampler(m, n - 1, r);
        let g1 = voxel_faces(g, m, dims, r, stats, n - 1);
        lemma_sweep_x_len(g1, dims, s, m.texture_img, stats, s.x_range().1);
    }
}

proof fn lemma_sweep_x_len(
    g: Seq<Block>,
    dims: CoordXYZ,
    s: FaceSampler,
    img: Option<TextureImage>,
    stats: Seq<TextureStat>,
    x1: int,
)
    requires
        g.len() == cell_count(dims),
    ensures
        sweep_x(g, dims, s, img, stats, x1).len() == g.len(),
    decreases x1 - s.x_range().0,
{
    if x1 > s.x_range().0 {
        lemma_sweep_x_len(g, dims, s, img, stats, x1 - 1);
        let g1 = sweep_x(g, dims, s, img, stats, x1 - 1);
        lemma_sweep_y_len(g1, dims, s, img, stats, x1 - 1, s.y_range().1);
    }
}

proof fn lemma_sweep_y_len(
    g: Seq<Block>,
    dims: CoordXYZ,
    s: FaceSampler,
    img: Option<TextureImage>,
    stats: Seq<TextureStat>,
    xs: int,
    y1: int,
)
    requires
        g.len() == cell_count(dims),
    ensures
        sweep_y(g, dims, s, img, stats, xs, y1).len() == g.len(),
    decreases y1 - s.y_range().0,
{
    if y1 > s.y_range().0 {
        lemma_sweep_y_len(g, dims, s, img, stats, xs, y1 - 1);
        let g1 = sweep_y(g, dims, s, img, stats, xs, y1 - 1);
        let w = s.plane.weights_at(xs, y1 - 1, s.r());
        let (x, y) = (xs / s.r(), (y1 - 1) / s.r());
        if inside(w) && s.plane.n.z == 0 {
            let v = texture_id(w, s.texture_plane, img, stats);
            lemma_fill_column_len(g1, dims, x, y, s.z_range().0, s.z_range().1, s.r(), v);
        } else if inside(w) {
            let (zn, zd) = s.plane.depth_at(xs, y1 - 1, s.r());
            if crate::grid::in_grid(dims, x, y, round_div(zn, zd)) {
                crate::grid::lemma_cell_index_bounds(dims, x, y, round_div(zn, zd));
            }
        }
    }
}

proof fn lemma_fill_column_len(
    g: Seq<Block>,
    dims: CoordXYZ,
    x: int,
    y: int,
    z0: int,
    z1: int,
    r: int,
    v: Block,
)
    requires
        g.len() == cell_count(dims),
    ensures
        fill_column(g, dims, x, y, z0, z1, r, v).len() == g.len(),
    decreases z1 - z0,
{
    if z1 > z0 {
        lemma_fill_column_len(g, dims, x, y, z0, z1 - 1, r, v);
        if crate::grid::in_grid(dims, x, y, (z1 - 1) / r) {
            crate::grid::lemma_cell_index_bounds(dims, x, y, (z1 - 1) / r);
        }
    }
}

/// `g2` differs from `g1` at most in the cells of layer `z == h`.
pub open spec fn same_off_layer(g1: Seq<Block>, g2: Seq<Block>, dims: CoordXYZ, h: int) -> bool {
    &&& g1.len() == g2.len()
    &&& forall|x: int, y: int, z: int|
        #![trigger cell_index(dims, x, y, z)]
        in_grid(dims, x, y, z) && z != h ==> g2[cell_index(dims, x, y, z)] == g1[cell_index(
            dims,
            x,
            y,
            z,
        )]
}

/// Cells of different layers have different positions in the buffer.
proof fn lemma_layers_apart(dims: CoordXYZ, x: int, y: int, z: int, x2: int, y2: int, z2: int)
    requires
        in_grid(dims, x, y, z),
        in_grid(dims, x2, y2, z2),
        z != z2,
    ensures
        cell_index(dims, x, y, z) != cell_index(dims, x2, y2, z2),
{
    let dz = dims.2 as int;
    let q = y * dims.0 + x;
    let q2 = y2 * dims.0 + x2;
    assert(q * dz + z != q2 * dz + z2) by (nonlinear_arith)
        requires
            0 <= z < dz,
            0 <= z2 < dz,
            z != z2,
    ;
}

/// Writing a cell of layer `h` changes nothing off that layer.
proof fn lemma_write_in_layer(g: Seq<Block>, dims: CoordXYZ, x: int, y: int, h: int, v: Block)
    requires
        g.len() == cell_count(dims),
    ensures
        same_off_layer(g, write_cell(g, dims, x, y, h, v), dims, h),
        write_cell(g, dims, x, y, h, v).len() == cell_count(dims),
{
    let g2 = write_cell(g, dims, x, y, h, v);
    if in_grid(dims, x, y, h) {
        crate::grid::lemma_cell_index_bounds(dims, x, y, h);
        assert forall|x2: int, y2: int, z2: int|
            #![trigger cell_index(dims, x2, y2, z2)]
            in_grid(dims, x2, y2, z2) && z2 != h implies g2[cell_index(dims, x2, y2, z2)]
            == g[cell_index(dims, x2, y2, z2)] by {
            lemma_layers_apart(dims, x, y, h, x2, y2, z2);
            crate::grid::lemma_cell_index_bounds(dims, x2, y2, z2);
        }
    }
}

/// `round_div(h * m, m) == h` for `m > 0`.
proof fn lemma_round_div_exact(h: int, m: int)
    requires
        m > 0,
    ensures
        round_div(h * m, m) == h,
{
    let a = if h >= 0 { h } else { -h };
    assert(2 * (a * m) + m == (2 * m) * a + m) by (nonlinear_arith);
    vstd::arithmetic::div_mod::lemma_div_multiples_vanish_fancy(a, m, 2 * m);
    assert((h * m >= 0) == (h >= 0)) by (nonlinear_arith)
        requires
            m > 0,
    ;
    if h < 0 {
        assert(-2 * (h * m) + m == 2 * (a * m) + m) by (nonlinear_arith)
            requires
                a == -h,
        ;
    }
}

/// A plane through three vertices at height `h` has depth `h` everywhere.
pub proof fn lemma_flat_plane_depth(p: TriangularPlane, h: int, xs: int, ys: int, r: int)
    requires
        p.wf(),
        p.a.z == h * FIXED_ONE,
        p.b.z == h * FIXED_ONE,
        p.c.z == h * FIXED_ONE,
        p.n.z != 0,
        r >= 1,
    ensures
        round_div(p.depth_at(xs, ys, r).0, p.depth_at(xs, ys, r).1) == h,
{
    let (ay, by, cy, ax, bx, cx) = (
        p.a.y as int,
        p.b.y as int,
        p.c.y as int,
        p.a.x as int,
        p.b.x as int,
        p.c.x as int,
    );
    let (az, bz, cz) = (p.a.z as int, p.b.z as int, p.c.z as int);
    let (nx, ny, nz) = (p.n.x as int, p.n.y as int, p.n.z as int);
    assert(nx == 0 && ny == 0) by (nonlinear_arith)
        requires
            nx == (ay - by) * (az - cz) - (az - bz) * (ay - cy),
            ny == (az - bz) * (ax - cx) - (ax - bx) * (az - cz),
            az == bz,
            az == cz,
    ;
    assert(p.k == nz * (h * 1024)) by (nonlinear_arith)
        requires
            p.k == nx * ax + ny * ay + nz * az,
            nx == 0,
            ny == 0,
            az == h * 1024,
    ;
    let m = nz * r * 1024;
    assert(p.k * r == h * m) by (nonlinear_arith)
        requires
            p.k == nz * (h * 1024),
            m == nz * r * 1024,
    ;
    assert(m != 0) by (nonlinear_arith)
        requires
            nz != 0,
            r >= 1,
            m == nz * r * 1024,
    ;
    if m < 0 {
        assert(-(h * m) == h * (-m)) by (nonlinear_arith);
        lemma_round_div_exact(h, -m);
    } else {
        lemma_round_div_exact(h, m);
    }
}

/// Sampling a face whose vertices all lie at height `h` changes no cell off
/// layer `h`.
proof fn lemma_flat_sweep_y(
    g: Seq<Block>,
    dims: CoordXYZ,
    s: FaceSampler,
    img: Option<TextureImage>,
    stats: Seq<TextureStat>,
    xs: int,
    y1: int,
    h: int,
)
    requires
        s.wf(),
        s.plane.a.z == h * FIXED_ONE,
        s.plane.b.z == h * FIXED_ONE,
        s.plane.c.z == h * FIXED_ONE,
        s.plane.n.z != 0,
        g.len() == cell_count(dims),
    ensures
        same_off_layer(g, sweep_y(g, dims, s, img, stats, xs, y1), dims, h),
    decreases y1 - s.y_range().0,
{
    if y1 > s.y_range().0 {
        lemma_flat_sweep_y(g, dims, s, img, stats, xs, y1 - 1, h);
        let g1 = sweep_y(g, dims, s, img, stats, xs, y1 - 1);
        let w = s.plane.weights_at(xs, y1 - 1, s.r());
        if inside(w) {
            let v = texture_id(w, s.texture_plane, img, stats);
            lemma_flat_plane_depth(s.plane, h, xs, y1 - 1, s.r());
            lemma_write_in_layer(g1, dims, xs / s.r(), (y1 - 1) / s.r(), h, v);
        }
    }
}

proof fn lemma_flat_sweep_x(
    g: Seq<Block>,
    dims: CoordXYZ,
    s: FaceSampler,
    img: Option<TextureImage>,
    stats: Seq<TextureStat>,
    x1: int,
    h: int,
)
    requires
        s.wf(),
        s.plane.a.z == h * FIXED_ONE,
        s.plane.b.z == h * FIXED_ONE,
        s.plane.c.z == h * FIXED_ONE,
        s.plane.n.z != 0,
        g.len() == cell_count(dims),
    ensures
        same_off_layer(g, sweep_x(g, dims, s, img, stats, x1), dims, h),
    decreases x1 - s.x_range().0,
{
    if x1 > s.x_range().0 {
        lemma_flat_sweep_x(g, dims, s, img, stats, x1 - 1, h);
        let g1 = sweep_x(g, dims, s, img, stats, x1 - 1);
        lemma_flat_sweep_y(g1, dims, s, img, stats, x1 - 1, s.y_range().1, h);
    }
}

/// A floor or ceiling triangle (all three vertices at the same height `h`,
/// not vertical) fills a single layer: voxelizing it changes no cell outside
/// layer `h`, and no column is filled.
pub proof fn lemma_flat_face_fills_one_layer(
    g: Seq<Block>,
    dims: CoordXYZ,
    s: FaceSampler,
    img: Option<TextureImage>,
    stats: Seq<TextureStat>,
    h: int,
)
    requires
        s.wf(),
        s.plane.a.z == h * FIXED_ONE,
        s.plane.b.z == h * FIXED_ONE,
        s.plane.c.z == h * FIXED_ONE,
        s.plane.n.z != 0,
        g.len() == cell_count(dims),
    ensures
        same_off_layer(g, face_effect(g, dims, s, img, stats), dims, h),
{
    lemma_flat_sweep_x(g, dims, s, img, stats, s.x_range().1, h);
}

/// The mapping plane of the first texture face, where the model has texture
/// faces and texture coordinates.
pub fn optional_texture_plane(
    texture_faces: &Option<TextureFaces>,
    texture_coords: &Option<TextureCoords>,
) -> (r: Option<TexturePlane>)
    requires
        texture_coords matches Some(tc) ==> forall|i: int|
            0 <= i < tc.0@.len() ==> #[trigger] tc.0@[i].within(COORD_LIMIT as int),
        match (*texture_coords, *texture_faces) {
            (Some(tc), Some(tf)) => crate::model::indices_below(tf.0@, tc.0@.len() as int),
            _ => true,
        },
    ensures
        r == mapping_plane(*texture_faces, *texture_coords),
        r matches Some(tp) ==> tp.wf(),
{
    match (texture_faces, texture_coords) {
        (Some(tf), Some(tc)) => {
            if tf.0.len() == 0 {
                return None;
            }
            let f = tf.0[0];
            assert(f[0] < tc.0@.len() && f[1] < tc.0@.len() && f[2] < tc.0@.len());
            let tp = TexturePlane::new(&tc.0[f[0]], &tc.0[f[1]], &tc.0[f[2]]);
            Some(tp)
        },
        _ => None,
    }
}

/// Writes `v` into the cells `(x, y, zs / r)` for `zs` in `[z0, z1)`.
fn fill_z(grid: &mut ArrayModel, x: i128, y: i128, z0: i64, z1: i64, resolution: u16, v: Block)
    requires
        old(grid).wf(),
        0 <= z0,
        z1 <= 0x10_0001,
        1 <= resolution,
    ensures
        final(grid).wf(),
        final(grid).dims == old(grid).dims,
        final(grid).resolution == old(grid).resolution,
        final(grid).blocks@ == fill_column(
            old(grid).blocks@,
            old(grid).dims,
            x as int,
            y as int,
            z0 as int,
            z1 as int,
            resolution as int,
            v,
        ),
{
    let ghost g0 = grid.blocks@;
    let mut zs = z0;
    while zs < z1
        invariant
            grid.wf(),
            grid.dims == old(grid).dims,
            grid.resolution == old(grid).resolution,
            g0 == old(grid).blocks@,
            0 <= z0 <= zs,
            zs <= z1 || zs == z0,
            z1 <= 0x10_0001,
            1 <= resolution,
            grid.blocks@ == fill_column(g0, grid.dims, x as int, y as int, z0 as int, zs as int, resolution as int, v),
        decreases z1 - zs,
    {
        let r = resolution as i64;
        let z = zs / r;
        grid.clamp_voxel_write(x, y, z as i128, v);
        zs = zs + 1;
    }
}

/// Samples the point `(xs / r, ys / r)` of one face.
fn sample(
    grid: &mut ArrayModel,
    s: &FaceSampler,
    img: &Option<TextureImage>,
    stats: &Vec<TextureStat>,
    xs: i64,
    ys: i64,
    z0: i64,
    z1: i64,
)
    requires
        old(grid).wf(),
        s.wf(),
        img matches Some(im) ==> im.wf(),
        forall|i: int| 0 <= i < stats@.len() ==> #[trigger] stats@[i].bounded(),
        0 <= xs <= 0x10_0001,
        0 <= ys <= 0x10_0001,
        z0 == s.z_range().0,
        z1 == s.z_range().1,
        0 <= z0,
        z1 <= 0x10_0001,
    ensures
        final(grid).wf(),
        final(grid).dims == old(grid).dims,
        final(grid).resolution == old(grid).resolution,
        final(grid).blocks@ == sample_effect(
            old(grid).blocks@,
            old(grid).dims,
            *s,
            *img,
            stats@,
            xs as int,
            ys as int,
        ),
{
    let w = s.plane.calc_weights(xs, ys, s.resolution);
    if TriangularPlane::weights_within_plane(w) {
        let r = s.resolution as i64;
        let x = xs / r;
        let y = ys / r;
        let v = get_texture_id(w, &s.texture_plane, img, stats);
        if s.plane.fills_z() {
            fill_z(grid, x as i128, y as i128, z0, z1, s.resolution, v);
        } else {
            let zr = s.plane.calculate_z(xs, ys, s.resolution);
            let z = round_div_i128(zr.num, zr.den);
            grid.clamp_voxel_write(x as i128, y as i128, z, v);
        }
    }
}

/// Samples every point of one face, column by column.
fn voxelize_face(
    grid: &mut ArrayModel,
    s: &FaceSampler,
    img: &Option<TextureImage>,
    stats: &Vec<TextureStat>,
)
    requires
        old(grid).wf(),
        s.wf(),
        img matches Some(im) ==> im.wf(),
        forall|i: int| 0 <= i < stats@.len() ==> #[trigger] stats@[i].bounded(),
    ensures
        final(grid).wf(),
        final(grid).dims == old(grid).dims,
        final(grid).resolution == old(grid).resolution,
        final(grid).blocks@ == face_effect(old(grid).blocks@, old(grid).dims, *s, *img, stats@),
{
    let bounds = s.plane.bounds();
    let ((x0, x1), (y0, y1), (z0, z1)) = bounds_to_range(bounds, s.resolution);
    let ghost g0 = grid.blocks@;
    let ghost dims = grid.dims;
    let mut xs = x0;
    while xs < x1
        invariant
            grid.wf(),
            grid.dims == dims,
            dims == old(grid).dims,
            grid.resolution == old(grid).resolution,
            g0 == old(grid).blocks@,
            s.wf(),
            img matches Some(im) ==> im.wf(),
            forall|i: int| 0 <= i < stats@.len() ==> #[trigger] stats@[i].bounded(),
            x0 == s.x_range().0 && x1 == s.x_range().1,
            y0 == s.y_range().0 && y1 == s.y_range().1,
            z0 == s.z_range().0 && z1 == s.z_range().1,
            0 <= z0 && z1 <= 0x10_0001,
            0 <= x0 <= xs,
            xs <= x1 || xs == x0,
            x1 <= 0x10_0001 && y1 <= 0x10_0001 && 0 <= y0,
            grid.blocks@ == sweep_x(g0, dims, *s, *img, stats@, xs as int),
        decreases x1 - xs,
    {
        let ghost gx = grid.blocks@;
        let mut ys = y0;
        while ys < y1
            invariant
                grid.wf(),
                grid.dims == dims,
                grid.resolution == old(grid).resolution,
                s.wf(),
                img matches Some(im) ==> im.wf(),
                forall|i: int| 0 <= i < stats@.len() ==> #[trigger] stats@[i].bounded(),
                y0 == s.y_range().0 && y1 == s.y_range().1,
                z0 == s.z_range().0 && z1 == s.z_range().1,
                0 <= z0 && z1 <= 0x10_0001,
                0 <= y0 <= ys,
                ys <= y1 || ys == y0,
                0 <= xs < x1 <= 0x10_0001 && y1 <= 0x10_0001,
                grid.blocks@ == sweep_y(gx, dims, *s, *img, stats@, xs as int, ys as int),
            decreases y1 - ys,
        {
            sample(grid, s, img, stats, xs, ys, z0, z1);
            ys = ys + 1;
        }
        xs = xs + 1;
    }
}

/// Voxelizes a model into a grid of dimensions `dims`, sampling every face at
/// `resolution` samples per unit length, with precomputed texture
/// statistics. The result is exactly `voxel_grid`.
pub fn voxelize(model: &Model, dims: CoordXYZ, resolution: u16, stats: &Vec<TextureStat>) -> (r:
    ArrayModel)
    requires
        model.wf(),
        1 <= resolution <= MAX_RESOLUTION,
        forall|i: int| 0 <= i < stats@.len() ==> #[trigger] stats@[i].bounded(),
    ensures
        r.wf(),
        r.dims == dims,
        r.resolution == resolution,
        r.blocks@ == voxel_grid(*model, dims, resolution as int, stats@),
{
    let tp = optional_texture_plane(&model.texture_faces, &model.texture_coords);
    let empty = if tp.is_some() && model.texture_img.is_some() {
        DEFAULT_TEXTURE_ID
    } else {
        EMPTY_BLOCK
    };
    let mut grid = ArrayModel::filled(dims, resolution, empty);
    let ghost g0 = grid.blocks@;
    let n = model.faces.0.len();
    let mut i: usize = 0;
    while i < n
        invariant
            i <= n,
            n == model.faces.0@.len(),
            model.wf(),
            1 <= resolution <= MAX_RESOLUTION,
            forall|i: int| 0 <= i < stats@.len() ==> #[trigger] stats@[i].bounded(),
            tp == texture_plane_of(*model),
            tp matches Some(t) ==> t.wf(),
            grid.wf(),
            grid.dims == dims,
            grid.resolution == resolution,
            g0 == Seq::new(cell_count(dims) as nat, |i: int| empty_block(*model)),
            grid.blocks@ == voxel_faces(g0, *model, dims, resolution as int, stats@, i as int),
        decreases n - i,
    {
        let f = model.faces.0[i];
        let verts = &model.vertices.0;
        assert(f[0] < verts@.len() && f[1] < verts@.len() && f[2] < verts@.len());
        let (a, b, c) = (verts[f[0]], verts[f[1]], verts[f[2]]);
        let plane = TriangularPlane::from_plane(a, b, c);
        proof {
            crate::plane::lemma_normal_bounds(a, b, c);
            assert(plane == plane_of(a, b, c));
        }
        let s = FaceSampler { plane, texture_plane: tp, resolution };
        assert(s == face_sampler(*model, i as int, resolution as int));
        voxelize_face(&mut grid, &s, &model.texture_img, stats);
        i = i + 1;
    }
    grid
}

/// Voxelizes a model into a grid of dimensions `dims` at `resolution`,
/// classifying filled cells against the available textures.
pub fn model_2_arr(
    model: Model,
    dims: CoordXYZ,
    resolution: u16,
    available_textures: Vec<(Block, TextureImage)>,
) -> (r: ArrayModel)
    requires
        model.wf(),
        1 <= resolution <= MAX_RESOLUTION,
        forall|i: int|
            0 <= i < available_textures@.len() ==> (#[trigger] available_textures@[i]).1.pixels@.len()
                <= crate::texture::PIXEL_LIMIT,
    ensures
        r.wf(),
        r.dims == dims,
        r.resolution == resolution,
        r.blocks@ == voxel_grid(model, dims, resolution as int, stats_of(available_textures@)),
{
    let stats = precompute_imgs(&available_textures);
    assert forall|i: int| 0 <= i < stats@.len() implies #[trigger] stats@[i] == stats_of(
        available_textures@,
    )[i] && stats@[i].bounded() by {
        assert(stats@[i].describes(available_textures@[i].0, available_textures@[i].1.pixels@));
    }
    assert(stats@ =~= stats_of(available_textures@));
    voxelize(&model, dims, resolution, &stats)
}

} // verus!
