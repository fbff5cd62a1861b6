//! The voxel grid: a dense `Dx * Dy * Dz` array of blocks in one flat
//! buffer, cell `(x, y, z)` at `(y * Dx + x) * Dz + z`.
use vstd::prelude::*;
use crate::Block;

verus! {

/// Grid dimensions `(Dx, Dy, Dz)`.
pub type CoordXYZ = (u16, u16, u16);

/// Number of cells of a grid of dimensions `dims`.
pub open spec fn cell_count(dims: CoordXYZ) -> int {
    dims.0 as int * dims.1 as int * dims.2 as int
}

/// The cell `(x, y, z)` lies in the grid.
pub open spec fn in_grid(dims: CoordXYZ, x: int, y: int, z: int) -> bool {
    0 <= x < dims.0 && 0 <= y < dims.1 && 0 <= z < dims.2
}

/// Position of cell `(x, y, z)` in the flat buffer.
pub open spec fn cell_index(dims: CoordXYZ, x: int, y: int, z: int) -> int {
    (y * dims.0 + x) * dims.2 + z
}

/// Writing `v` into cell `(x, y, z)`; a cell outside the grid is skipped.
pub open spec fn write_cell(g: Seq<Block>, dims: CoordXYZ, x: int, y: int, z: int, v: Block) -> Seq<
    Block,
> {
    if in_grid(dims, x, y, z) {
        g.update(cell_index(dims, x, y, z), v)
    } else {
        g
    }
}

/// Cells of the grid have distinct positions inside the buffer.
pub proof fn lemma_cell_index_bounds(dims: CoordXYZ, x: int, y: int, z: int)
    requires
        in_grid(dims, x, y, z),
    ensures
        0 <= cell_index(dims, x, y, z) < cell_count(dims),
        0 <= y * dims.0 + x < dims.0 * dims.1,
{
    let (dx, dy, dz) = (dims.0 as int, dims.1 as int, dims.2 as int);
    assert(0 <= y * dx + x < dx * dy) by (nonlinear_arith)
        requires
            0 <= x < dx,
            0 <= y < dy,
    ;
    let q = y * dx + x;
    assert(0 <= q * dz + z < (dx * dy) * dz) by (nonlinear_arith)
        requires
            0 <= q < dx * dy,
            0 <= z < dz,
    ;
}

/// The voxel grid with its dimensions and the resolution it was sampled at.
#[derive(Debug)]
pub struct ArrayModel {
    pub blocks: Vec<Block>,
    pub dims: CoordXYZ,
    pub resolution: u16,
}

impl ArrayModel {
    pub open spec fn wf(self) -> bool {
        self.blocks@.len() == cell_count(self.dims)
    }

    /// A grid whose cells all hold `0`.
    pub fn new(dims: CoordXYZ, resolution: u16) -> (r: Self)
        ensures
            r.wf(),
            r.dims == dims && r.resolution == resolution,
            r.blocks@ == Seq::new(cell_count(dims) as nat, |i: int| 0 as Block),
    {
        Self::filled(dims, resolution, 0)
    }

    /// A grid whose cells all hold `empty`.
    pub fn filled(dims: CoordXYZ, resolution: u16, empty: Block) -> (r: Self)
        ensures
            r.wf(),
            r.dims == dims && r.resolution == resolution,
            r.blocks@ == Seq::new(cell_count(dims) as nat, |i: int| empty),
    {
        let (dx, dy, dz) = (dims.0 as u64, dims.1 as u64, dims.2 as u64);
        proof {
            crate::arith::lemma_mul_abs_le(dx as int, dy as int, 0xffff, 0xffff, 0xffff_ffff);
            crate::arith::lemma_mul_abs_le(
                (dx * dy) as int,
                dz as int,
                0xffff_ffff,
                0xffff,
                0xffff_ffff_ffff,
            );
        }
        let n = dx * dy * dz;
        let mut blocks: Vec<Block> = Vec::new();
        let mut i: u64 = 0;
        while i < n
            invariant
                i <= n,
                n == cell_count(dims),
                blocks@ == Seq::new(i as nat, |j: int| empty),
            decreases n - i,
        {
            blocks.push(empty);
            i = i + 1;
            assert(blocks@ =~= Seq::new(i as nat, |j: int| empty));
        }
        ArrayModel { blocks, dims, resolution }
    }

    /// The block in cell `(x, y, z)`.
    pub fn get(&self, c_xyz: (usize, usize, usize)) -> (b: Block)
        requires
            self.wf(),
            in_grid(self.dims, c_xyz.0 as int, c_xyz.1 as int, c_xyz.2 as int),
        ensures
            b == self.blocks@[cell_index(self.dims, c_xyz.0 as int, c_xyz.1 as int, c_xyz.2 as int)],
    {
        let idx = self.index_of(c_xyz.0 as i64, c_xyz.1 as i64, c_xyz.2 as i64);
        self.blocks[idx]
    }

    /// Stores `val` in cell `(x, y, z)`.
    pub fn set(&mut self, c_xyz: (usize, usize, usize), val: Block)
        requires
            old(self).wf(),
            in_grid(old(self).dims, c_xyz.0 as int, c_xyz.1 as int, c_xyz.2 as int),
        ensures
            final(self).wf(),
            final(self).dims == old(self).dims,
            final(self).resolution == old(self).resolution,
            final(self).blocks@ == old(self).blocks@.update(
                cell_index(old(self).dims, c_xyz.0 as int, c_xyz.1 as int, c_xyz.2 as int),
                val,
            ),
    {
        let idx = self.index_of(c_xyz.0 as i64, c_xyz.1 as i64, c_xyz.2 as i64);
        self.blocks.set(idx, val);
    }

    /// Stores `val` in cell `(x, y, z)` where that cell lies in the grid, and
    /// leaves the grid unchanged otherwise.
    pub fn clamp_voxel_write(&mut self, x: i128, y: i128, z: i128, val: Block)
        requires
            old(self).wf(),
        ensures
            final(self).wf(),
            final(self).dims == old(self).dims,
            final(self).resolution == old(self).resolution,
            final(self).blocks@ == write_cell(
                old(self).blocks@,
                old(self).dims,
                x as int,
                y as int,
                z as int,
                val,
            ),
    {
        if 0 <= x && x < self.dims.0 as i128 && 0 <= y && y < self.dims.1 as i128 && 0 <= z && z
            < self.dims.2 as i128 {
            let idx = self.index_of(x as i64, y as i64, z as i64);
            self.blocks.set(idx, val);
        }
    }

    /// The blocks as nested arrays `[y][x][z]`: outer Y, then X, then Z.
    pub fn to_nested(&self) -> (r: Vec<Vec<Vec<Block>>>)
        requires
            self.wf(),
        ensures
            r@.len() == self.dims.1,
            forall|y: int| 0 <= y < self.dims.1 ==> (#[trigger] r@[y])@.len() == self.dims.0,
            forall|y: int, x: int|
                0 <= y < self.dims.1 && 0 <= x < self.dims.0 ==> (#[trigger] r@[y]@[x])@
                    == self.blocks@.subrange(
                    cell_index(self.dims, x, y, 0),
                    cell_index(self.dims, x, y, 0) + self.dims.2,
                ),
    {
        let (dx, dy, dz) = (self.dims.0, self.dims.1, self.dims.2);
        let mut out: Vec<Vec<Vec<Block>>> = Vec::new();
        let mut y: u16 = 0;
        while y < dy
            invariant
                self.wf(),
                dx == self.dims.0 && dy == self.dims.1 && dz == self.dims.2,
                y <= dy,
                out@.len() == y,
                forall|yy: int| 0 <= yy < y ==> (#[trigger] out@[yy])@.len() == dx,
                forall|yy: int, x: int|
                    0 <= yy < y && 0 <= x < dx ==> (#[trigger] out@[yy]@[x])@ == self.blocks@.subrange(
                        cell_index(self.dims, x, yy, 0),
                        cell_index(self.dims, x, yy, 0) + dz,
                    ),
            decreases dy - y,
        {
            let mut row: Vec<Vec<Block>> = Vec::new();
            let mut x: u16 = 0;
            proof {
                if dz == 0 {
                    assert(self.blocks@.len() == 0) by (nonlinear_arith)
                        requires
                            self.blocks@.len() == dx * dy * dz,
                            dz == 0,
                    ;
                }
            }
            while x < dx
                invariant
                    self.wf(),
                    dx == self.dims.0 && dy == self.dims.1 && dz == self.dims.2,
                    y < dy,
                    x <= dx,
                    row@.len() == x,
                    forall|xx: int|
                        0 <= xx < x ==> (#[trigger] row@[xx])@ == self.blocks@.subrange(
                            cell_index(self.dims, xx, y as int, 0),
                            cell_index(self.dims, xx, y as int, 0) + dz,
                        ),
                decreases dx - x,
            {
                let mut col: Vec<Block> = Vec::new();
                let mut z: u16 = 0;
                proof {
                    let q = y as int * dx as int + x as int;
                    assert(0 <= q < dx * dy) by (nonlinear_arith)
                        requires
                            q == y as int * dx as int + x as int,
                            0 <= x < dx,
                            0 <= y < dy,
                    ;
                    assert(0 <= q * dz + dz <= (dx * dy) * dz) by (nonlinear_arith)
                        requires
                            0 <= q < dx * dy,
                            0 <= dz,
                    ;
                    assert(col@ =~= self.blocks@.subrange(
                        cell_index(self.dims, x as int, y as int, 0),
                        cell_index(self.dims, x as int, y as int, 0),
                    ));
                }
                while z < dz
                    invariant
                        self.wf(),
                        dx == self.dims.0 && dy == self.dims.1 && dz == self.dims.2,
                        y < dy && x < dx,
                        z <= dz,
                        col@ == self.blocks@.subrange(
                            cell_index(self.dims, x as int, y as int, 0),
                            cell_index(self.dims, x as int, y as int, 0) + z,
                        ),
                    decreases dz - z,
                {
                    let idx = self.index_of(x as i64, y as i64, z as i64);
                    col.push(self.blocks[idx]);
                    z = z + 1;
                    assert(col@ =~= self.blocks@.subrange(
                        cell_index(self.dims, x as int, y as int, 0),
                        cell_index(self.dims, x as int, y as int, 0) + z,
                    ));
                }
                row.push(col);
                x = x + 1;
            }
            out.push(row);
            y = y + 1;
        }
        out
    }

    fn index_of(&self, x: i64, y: i64, z: i64) -> (i: usize)
        requires
            self.wf(),
            in_grid(self.dims, x as int, y as int, z as int),
        ensures
            i == cell_index(self.dims, x as int, y as int, z as int),
            i < self.blocks@.len(),
    {
        proof {
            lemma_cell_index_bounds(self.dims, x as int, y as int, z as int);
            let (dx, xx, yy) = (self.dims.0 as int, x as int, y as int);
            assert(0 <= yy * dx <= yy * dx + xx) by (nonlinear_arith)
                requires
                    0 <= yy,
                    0 <= xx,
                    0 <= dx,
            ;
            let q = yy * dx + xx;
            let dz = self.dims.2 as int;
            assert(0 <= q <= q * dz <= q * dz + z) by (nonlinear_arith)
                requires
                    0 <= q,
                    0 <= z,
                    1 <= dz,
            ;
        }
        let (xu, yu, zu) = (x as usize, y as usize, z as usize);
        let (dxu, dzu) = (self.dims.0 as usize, self.dims.2 as usize);
        proof {
            crate::arith::lemma_mul_abs_le(yu as int, dxu as int, 0xffff, 0xffff, 0xfffe_0001);
        }
        let n = self.blocks.len();
        let row = yu * dxu + xu;
        assert(row * dzu + zu < n);
        row * dzu + zu
    }
}

} // verus!
