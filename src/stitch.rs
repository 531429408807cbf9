use vstd::prelude::*;

use crate::image::{Image, is_black, lemma_index_bound};

verus! {

/// Why a tile could not be placed, or the canvas not handed out.
#[derive(Debug, Clone, Copy, PartialEq, Eq, Structural)]
pub enum StitchError {
    /// The tile's row or column lies outside the grid.
    OutOfGrid,
    /// The tile is not a square of the grid's tile edge.
    WrongTileSize,
    /// A tile was already placed at that row and column.
    AlreadyPlaced,
    /// Some cell of the grid has no tile yet.
    Incomplete,
}

/// Whether the canvas pixel `(u, v)` lies in the cell at `(row, col)` of a grid
/// of cells `s` pixels wide.
pub open spec fn in_tile(row: int, col: int, s: int, u: int, v: int) -> bool {
    &&& col * s <= u < col * s + s
    &&& row * s <= v < row * s + s
}

/// Whether tile pixel `(tx, ty)` comes before `(x, y)` in a row-major scan.
pub open spec fn scanned_rows(tx: int, ty: int, x: int, y: int) -> bool {
    ty < y || (ty == y && tx < x)
}

/// A square canvas filled, one grid cell at a time, from tiles of equal size.
pub struct Stitcher {
    pub canvas: Image,
    pub tile_count: u32,
    pub tile_px: u32,
    pub placed: Vec<bool>,
}

/// The cells of a `tile_count × tile_count` grid whose side is
/// `dim / tile_count` cover `[0, dim)²` with no gap or overlap when
/// `tile_count` divides `dim`: each pixel lies in exactly one cell.
pub proof fn lemma_tiles_partition(dim: int, tile_count: int, u: int, v: int)
    requires
        tile_count > 0,
        dim % tile_count == 0,
        0 <= u < dim,
        0 <= v < dim,
    ensures
        0 <= v / (dim / tile_count) < tile_count,
        0 <= u / (dim / tile_count) < tile_count,
        in_tile(v / (dim / tile_count), u / (dim / tile_count), dim / tile_count, u, v),
        forall|row: int, col: int|
            #[trigger] in_tile(row, col, dim / tile_count, u, v) ==> row == v / (dim / tile_count) && col
                == u / (dim / tile_count),
{
    let s = dim / tile_count;
    vstd::arithmetic::div_mod::lemma_fundamental_div_mod(dim, tile_count);
    assert(dim == tile_count * s);
    assert(s > 0) by (nonlinear_arith)
        requires
            dim == tile_count * s,
            dim > 0,
            tile_count > 0,
    ;
    vstd::arithmetic::div_mod::lemma_fundamental_div_mod(u, s);
    vstd::arithmetic::div_mod::lemma_fundamental_div_mod(v, s);
    lemma_cell_unique(s, tile_count, u);
    lemma_cell_unique(s, tile_count, v);
    assert forall|row: int, col: int| #[trigger] in_tile(row, col, s, u, v) implies row == v / s && col == u
        / s by {
        lemma_cell_same(s, row, v / s, v);
        lemma_cell_same(s, col, u / s, u);
    }
}

/// The cell `a / s` holding `a` lies in a grid of `n` cells when `a < n * s`.
proof fn lemma_cell_unique(s: int, n: int, a: int)
    requires
        s > 0,
        n > 0,
        0 <= a < n * s,
        a == s * (a / s) + a % s,
        0 <= a % s < s,
    ensures
        0 <= a / s < n,
        (a / s) * s <= a < (a / s) * s + s,
{
    let q = a / s;
    assert(0 <= q < n) by (nonlinear_arith)
        requires
            s > 0,
            0 <= a < n * s,
            a == s * q + a % s,
            0 <= a % s < s,
    ;
    assert(q * s == s * q) by (nonlinear_arith);
}

/// Two cells of side `s` that both hold `a` are the same cell.
pub proof fn lemma_cell_same(s: int, c1: int, c2: int, a: int)
    requires
        s > 0,
        c1 * s <= a < c1 * s + s,
        c2 * s <= a < c2 * s + s,
    ensures
        c1 == c2,
{
    if c1 < c2 {
        assert(c1 * s + s <= c2 * s) by (nonlinear_arith)
            requires
                c1 < c2,
                s > 0,
        ;
    } else if c2 < c1 {
        assert(c2 * s + s <= c1 * s) by (nonlinear_arith)
            requires
                c2 < c1,
                s > 0,
        ;
    }
}

/// Every cell of a `tile_count × tile_count` grid, row after row: position
/// `i` holds row `i / tile_count` and column `i % tile_count`, so each cell is
/// listed exactly once.
pub fn tile_coordinates(tile_count: u32) -> (r: Vec<(u32, u32)>)
    requires
        tile_count as int * tile_count as int <= usize::MAX,
    ensures
        r@.len() == tile_count as int * tile_count as int,
        forall|i: int|
            0 <= i < r@.len() ==> #[trigger] r@[i].0 == i / tile_count as int && r@[i].1 == i
                % tile_count as int,
{
    let mut r: Vec<(u32, u32)> = Vec::new();
    let mut row: u32 = 0;
    while row < tile_count
        invariant
            row <= tile_count,
            tile_count as int * tile_count as int <= usize::MAX,
            r@.len() == row as int * tile_count as int,
            forall|i: int|
                0 <= i < r@.len() ==> #[trigger] r@[i].0 == i / tile_count as int && r@[i].1 == i
                    % tile_count as int,
        decreases tile_count - row,
    {
        let mut col: u32 = 0;
        while col < tile_count
            invariant
                row < tile_count,
                col <= tile_count,
                tile_count as int * tile_count as int <= usize::MAX,
                r@.len() == row as int * tile_count as int + col,
                forall|i: int|
                    0 <= i < r@.len() ==> #[trigger] r@[i].0 == i / tile_count as int && r@[i].1 == i
                        % tile_count as int,
            decreases tile_count - col,
        {
            proof {
                vstd::arithmetic::div_mod::lemma_fundamental_div_mod_converse(
                    row as int * tile_count as int + col,
                    tile_count as int,
                    row as int,
                    col as int,
                );
                lemma_index_bound(tile_count as int, tile_count as int, col as int, row as int);
            }
            r.push((row, col));
            col = col + 1;
        }
        assert(row as int * tile_count as int + tile_count as int == (row as int + 1)
            * tile_count as int) by (nonlinear_arith);
        row = row + 1;
    }
    r
}

impl Stitcher {
    pub open spec fn wf(&self) -> bool {
        &&& self.canvas.wf()
        &&& self.canvas.width == self.canvas.height
        &&& self.tile_count > 0
        &&& self.tile_count as int * self.tile_px as int <= self.canvas.width
        &&& self.placed@.len() == self.tile_count as int * self.tile_count as int
    }

    pub open spec fn cell(&self, row: int, col: int) -> int {
        row * self.tile_count + col
    }

    pub open spec fn is_complete(&self) -> bool {
        forall|i: int| 0 <= i < self.placed@.len() ==> #[trigger] self.placed@[i]
    }

    /// A black `disk_dim × disk_dim` canvas for a grid of `tile_count` tiles a
    /// side, each `disk_dim / tile_count` pixels wide, none placed yet.
    pub fn new(disk_dim: u32, tile_count: u32) -> (r: Stitcher)
        requires
            tile_count > 0,
            disk_dim as int * disk_dim as int <= usize::MAX,
            tile_count as int * tile_count as int <= usize::MAX,
        ensures
            r.wf(),
            r.canvas.width == disk_dim,
            r.tile_count == tile_count,
            r.tile_px == disk_dim / tile_count,
            forall|i: int| 0 <= i < r.canvas.data@.len() ==> is_black(#[trigger] r.canvas.data@[i]),
            forall|i: int| 0 <= i < r.placed@.len() ==> !#[trigger] r.placed@[i],
    {
        let canvas = Image::new(disk_dim, disk_dim);
        let tile_px = disk_dim / tile_count;
        assert(tile_count as int * (disk_dim / tile_count) as int <= disk_dim) by {
            vstd::arithmetic::div_mod::lemma_fundamental_div_mod(
                disk_dim as int,
                tile_count as int,
            );
        }
        let n: usize = tile_count as usize * tile_count as usize;
        let mut placed: Vec<bool> = Vec::with_capacity(n);
        let mut i: usize = 0;
        while i < n
            invariant
                i <= n,
                placed@.len() == i,
                forall|k: int| 0 <= k < i ==> !#[trigger] placed@[k],
            decreases n - i,
        {
            placed.push(false);
            i = i + 1;
        }
        Stitcher { canvas, tile_count, tile_px, placed }
    }

    /// Whether a tile was placed at `(row, col)`.
    pub fn is_placed(&self, row: u32, col: u32) -> (r: bool)
        requires
            self.wf(),
        ensures
            r == (row < self.tile_count && col < self.tile_count && self.placed@[self.cell(
                row as int,
                col as int,
            )]),
    {
        if row >= self.tile_count || col >= self.tile_count {
            return false;
        }
        let _n = self.placed.len();
        proof {
            lemma_index_bound(self.tile_count as int, self.tile_count as int, col as int, row as int);
            assert(row * self.tile_count <= row * self.tile_count + col);
        }
        self.placed[row as usize * self.tile_count as usize + col as usize]
    }

    /// Copies `tile` into the cell at `(row, col)`: the pixel at `(u, v)` of that
    /// cell becomes the tile's pixel at `(u - col * s, v - row * s)`. No pixel
    /// outside the cell changes. A cell takes one tile only.
    pub fn place(&mut self, row: u32, col: u32, tile: &Image) -> (r: Result<(), StitchError>)
        requires
            old(self).wf(),
        ensures
            final(self).wf(),
            r == Err::<(), StitchError>(StitchError::OutOfGrid) <==> (row >= old(self).tile_count
                || col >= old(self).tile_count),
            r == Err::<(), StitchError>(StitchError::WrongTileSize) <==> (row < old(self).tile_count
                && col < old(self).tile_count && !(tile.wf() && tile.width == old(self).tile_px
                && tile.height == old(self).tile_px)),
            r == Err::<(), StitchError>(StitchError::AlreadyPlaced) <==> (row < old(
                self,
            ).tile_count && col < old(self).tile_count && tile.wf() && tile.width == old(
                self,
            ).tile_px && tile.height == old(self).tile_px && old(self).placed@[old(self).cell(
                row as int,
                col as int,
            )]),
            r is Ok <==> (row < old(self).tile_count && col < old(self).tile_count && tile.wf()
                && tile.width == old(self).tile_px && tile.height == old(self).tile_px && !old(
                self,
            ).placed@[old(self).cell(row as int, col as int)]),
            r is Err ==> *final(self) == *old(self),
            r is Ok ==> {
                &&& final(self).tile_count == old(self).tile_count
                &&& final(self).tile_px == old(self).tile_px
                &&& final(self).canvas.width == old(self).canvas.width
                &&& final(self).placed@ == old(self).placed@.update(
                    old(self).cell(row as int, col as int),
                    true,
                )
                &&& forall|u: int, v: int|
                    0 <= u < old(self).canvas.width && 0 <= v < old(self).canvas.height
                        ==> #[trigger] final(self).canvas.at(u, v) == if in_tile(
                        row as int,
                        col as int,
                        old(self).tile_px as int,
                        u,
                        v,
                    ) {
                        tile.at(u - col * old(self).tile_px, v - row * old(self).tile_px)
                    } else {
                        old(self).canvas.at(u, v)
                    }
            },
    {
        if row >= self.tile_count || col >= self.tile_count {
            return Err(StitchError::OutOfGrid);
        }
        let s = self.tile_px;
        assert(s as int * s as int <= u64::MAX) by (nonlinear_arith)
            requires
                s <= u32::MAX,
        ;
        if tile.width != s || tile.height != s || tile.data.len() as u64 != s as u64 * s as u64 {
            return Err(StitchError::WrongTileSize);
        }
        let _n = self.placed.len();
        proof {
            lemma_index_bound(self.tile_count as int, self.tile_count as int, col as int, row as int);
            assert(row * self.tile_count <= row * self.tile_count + col);
        }
        let idx: usize = row as usize * self.tile_count as usize + col as usize;
        if self.placed[idx] {
            return Err(StitchError::AlreadyPlaced);
        }
        let ghost c0 = self.canvas;
        let ghost pre = *self;
        let tc = self.tile_count;
        assert(col as int * s as int + s as int <= tc as int * s as int
            && row as int * s as int + s as int <= tc as int * s as int) by (nonlinear_arith)
            requires
                col < tc,
                row < tc,
                s >= 0,
        ;
        let x0: u32 = col * s;
        let y0: u32 = row * s;
        let mut ty: u32 = 0;
        while ty < s
            invariant
                self.canvas.wf(),
                pre.wf(),
                self.placed@ == pre.placed@,
                self.tile_count == pre.tile_count,
                self.tile_px == pre.tile_px,
                idx == pre.cell(row as int, col as int),
                idx < pre.placed@.len(),
                tile.wf(),
                tile.width == s,
                tile.height == s,
                self.canvas.width == c0.width,
                self.canvas.height == c0.height,
                x0 == col * s,
                y0 == row * s,
                x0 + s <= c0.width,
                y0 + s <= c0.height,
                ty <= s,
                forall|u: int, v: int|
                    0 <= u < c0.width && 0 <= v < c0.height ==> #[trigger] self.canvas.at(u, v)
                        == if in_tile(row as int, col as int, s as int, u, v) && v - y0 < ty {
                        tile.at(u - x0, v - y0)
                    } else {
                        c0.at(u, v)
                    },
            decreases s - ty,
        {
            let mut tx: u32 = 0;
            while tx < s
                invariant
                    self.canvas.wf(),
                    pre.wf(),
                    self.placed@ == pre.placed@,
                    self.tile_count == pre.tile_count,
                    self.tile_px == pre.tile_px,
                    idx == pre.cell(row as int, col as int),
                    idx < pre.placed@.len(),
                    tile.wf(),
                    tile.width == s,
                    tile.height == s,
                    self.canvas.width == c0.width,
                    self.canvas.height == c0.height,
                    x0 == col * s,
                    y0 == row * s,
                    x0 + s <= c0.width,
                    y0 + s <= c0.height,
                    ty < s,
                    tx <= s,
                    forall|u: int, v: int|
                        0 <= u < c0.width && 0 <= v < c0.height ==> #[trigger] self.canvas.at(u, v)
                            == if in_tile(row as int, col as int, s as int, u, v) && scanned_rows(
                            u - x0,
                            v - y0,
                            tx as int,
                            ty as int,
                        ) {
                            tile.at(u - x0, v - y0)
                        } else {
                            c0.at(u, v)
                        },
                decreases s - tx,
            {
                let p = tile.pixel(tx, ty);
                self.canvas.set_pixel(x0 + tx, y0 + ty, p);
                tx = tx + 1;
            }
            ty = ty + 1;
        }
        self.placed.set(idx, true);
        Ok(())
    }

    /// Hands out the canvas once every cell of the grid holds a tile.
    pub fn finish(self) -> (r: Result<Image, StitchError>)
        requires
            self.wf(),
        ensures
            r is Ok <==> self.is_complete(),
            r matches Ok(img) ==> img == self.canvas,
            r is Err ==> r == Err::<Image, StitchError>(StitchError::Incomplete),
    {
        let mut i: usize = 0;
        while i < self.placed.len()
            invariant
                i <= self.placed@.len(),
                forall|k: int| 0 <= k < i ==> #[trigger] self.placed@[k],
            decreases self.placed@.len() - i,
        {
            if !self.placed[i] {
                return Err(StitchError::Incomplete);
            }
            i = i + 1;
        }
        Ok(self.canvas)
    }
}

} // verus!
