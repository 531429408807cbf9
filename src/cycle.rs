use vstd::prelude::*;

use crate::image::{Image, is_black, lemma_index_bound, lemma_index_unique};
use crate::slider::{MetadataError, TileError};
use crate::stitch::{StitchError, Stitcher, in_tile};

verus! {

/// One tile's outcome, at its row and column in the grid.
pub struct TileResult {
    pub row: u32,
    pub col: u32,
    pub tile: Result<Image, TileError>,
}

/// Why a cycle produced no disk image.
#[derive(Debug, Clone, Copy, PartialEq, Eq, Structural)]
pub enum DownloadError {
    /// The capture's date or timestamp could not be had.
    Metadata(MetadataError),
    /// The tile at `(row, col)` failed.
    Tile { row: u32, col: u32, error: TileError },
    /// The tiles did not fill the grid exactly once.
    Stitch(StitchError),
}

/// Whether the tile at position `k` of the list is in the image, in its cell.
pub open spec fn tile_in_image(img: Image, tiles: Seq<TileResult>, k: int, s: int) -> bool {
    &&& tiles[k].tile is Ok
    &&& forall|u: int, v: int|
        0 <= u < img.width && 0 <= v < img.height && in_tile(
            tiles[k].row as int,
            tiles[k].col as int,
            s,
            u,
            v,
        ) ==> #[trigger] img.at(u, v) == tiles[k].tile->Ok_0.at(
            u - tiles[k].col * s,
            v - tiles[k].row * s,
        )
}

/// Whether the canvas pixel `(u, v)` lies beyond the grid's last row or
/// column of cells, in the strip that no cell covers.
pub open spec fn outside_grid(u: int, v: int, tile_count: int, s: int) -> bool {
    u >= tile_count * s || v >= tile_count * s
}

/// Whether some tile of the list failed.
pub open spec fn any_tile_failed(tiles: Seq<TileResult>) -> bool {
    exists|k: int| 0 <= k < tiles.len() && (#[trigger] tiles[k]).tile is Err
}

/// Whether the list fills the grid exactly once with good tiles: each one
/// decoded, square of edge `s`, in the grid and in a cell of its own, and every
/// cell holds one.
pub open spec fn tiles_fill_grid(tiles: Seq<TileResult>, tile_count: int, s: int) -> bool {
    &&& forall|k: int|
        0 <= k < tiles.len() ==> {
            &&& (#[trigger] tiles[k]).tile is Ok
            &&& tiles[k].tile->Ok_0.wf()
            &&& tiles[k].tile->Ok_0.width == s
            &&& tiles[k].tile->Ok_0.height == s
            &&& tiles[k].row < tile_count
            &&& tiles[k].col < tile_count
        }
    &&& forall|j: int, k: int|
        0 <= j < tiles.len() && 0 <= k < tiles.len() && j != k ==> !(#[trigger] tiles[j].row
            == #[trigger] tiles[k].row && tiles[j].col == tiles[k].col)
    &&& forall|row: int, col: int|
        0 <= row < tile_count && 0 <= col < tile_count ==> #[trigger] has_tile(
            tiles,
            tiles.len() as int,
            row,
            col,
        )
}

/// Whether some tile of the list sits at `(row, col)`.
pub open spec fn has_tile(tiles: Seq<TileResult>, n: int, row: int, col: int) -> bool {
    exists|k: int| 0 <= k < n && #[trigger] tiles[k].row == row && tiles[k].col == col
}

/// Stitches one cycle's tiles into a `disk_dim × disk_dim` disk image. Any
/// failed tile aborts the whole cycle, and so does a grid that the tiles do not
/// fill exactly once: the partly filled canvas is then dropped.
pub fn assemble(disk_dim: u32, tile_count: u32, tiles: &Vec<TileResult>) -> (r: Result<
    Image,
    DownloadError,
>)
    requires
        tile_count > 0,
        disk_dim as int * disk_dim as int <= usize::MAX,
        tile_count as int * tile_count as int <= usize::MAX,
    ensures
        any_tile_failed(tiles@) ==> r matches Err(DownloadError::Tile { .. }),
        tiles_fill_grid(tiles@, tile_count as int, (disk_dim / tile_count) as int) ==> r is Ok,
        r matches Err(DownloadError::Tile { row, col, error }) ==> exists|k: int|
            0 <= k < tiles@.len() && (#[trigger] tiles@[k]).row == row && tiles@[k].col == col
                && tiles@[k].tile == Err::<Image, TileError>(error),
        r matches Ok(img) ==> {
            &&& img.wf()
            &&& img.width == disk_dim
            &&& img.height == disk_dim
            &&& forall|k: int|
                0 <= k < tiles@.len() ==> #[trigger] tile_in_image(
                    img,
                    tiles@,
                    k,
                    (disk_dim / tile_count) as int,
                )
            &&& forall|u: int, v: int|
                0 <= u < disk_dim && 0 <= v < disk_dim && outside_grid(
                    u,
                    v,
                    tile_count as int,
                    (disk_dim / tile_count) as int,
                ) ==> is_black(#[trigger] img.at(u, v))
            &&& forall|row: int, col: int|
                0 <= row < tile_count && 0 <= col < tile_count ==> has_tile(
                    tiles@,
                    tiles@.len() as int,
                    row,
                    col,
                )
        },
{
    let mut k: usize = 0;
    while k < tiles.len()
        invariant
            k <= tiles@.len(),
            forall|j: int| 0 <= j < k ==> (#[trigger] tiles@[j]).tile is Ok,
        decreases tiles@.len() - k,
    {
        match &tiles[k].tile {
            Ok(_) => {},
            Err(e) => {
                return Err(DownloadError::Tile { row: tiles[k].row, col: tiles[k].col, error: *e });
            },
        }
        k = k + 1;
    }
    let mut st = Stitcher::new(disk_dim, tile_count);
    let ghost s = st.tile_px as int;
    proof {
        assert forall|u: int, v: int|
            0 <= u < disk_dim && 0 <= v < disk_dim implies is_black(#[trigger] st.canvas.at(u, v)) by {
            lemma_index_bound(disk_dim as int, disk_dim as int, u, v);
        }
    }
    let mut i: usize = 0;
    while i < tiles.len()
        invariant
            st.wf(),
            st.canvas.width == disk_dim,
            st.tile_count == tile_count,
            st.tile_px == s,
            s == disk_dim / tile_count,
            forall|u: int, v: int|
                0 <= u < disk_dim && 0 <= v < disk_dim && outside_grid(u, v, tile_count as int, s)
                    ==> is_black(#[trigger] st.canvas.at(u, v)),
            i <= tiles@.len(),
            forall|j: int| 0 <= j < tiles@.len() ==> (#[trigger] tiles@[j]).tile is Ok,
            forall|j: int|
                0 <= j < i ==> {
                    &&& (#[trigger] tiles@[j]).row < tile_count
                    &&& tiles@[j].col < tile_count
                    &&& st.placed@[st.cell(tiles@[j].row as int, tiles@[j].col as int)]
                    &&& tile_in_image(st.canvas, tiles@, j, s)
                },
            forall|c: int|
                0 <= c < st.placed@.len() && #[trigger] st.placed@[c] ==> exists|j: int|
                    0 <= j < i && c == st.cell(
                        (#[trigger] tiles@[j]).row as int,
                        tiles@[j].col as int,
                    ),
        decreases tiles@.len() - i,
    {
        let t = &tiles[i];
        let ghost pre = st;
        proof {
            if tiles_fill_grid(tiles@, tile_count as int, s) {
                let tc = tile_count as int;
                let c = pre.cell(t.row as int, t.col as int);
                lemma_index_bound(tc, tc, t.col as int, t.row as int);
                if pre.placed@[c] {
                    let j = choose|j: int|
                        0 <= j < i && c == pre.cell(
                            (#[trigger] tiles@[j]).row as int,
                            tiles@[j].col as int,
                        );
                    assert(tiles@[i as int] == *t);
                    assert(tiles@[j].row < tile_count && tiles@[j].col < tile_count);
                    lemma_index_unique(
                        tc,
                        t.col as int,
                        t.row as int,
                        tiles@[j].col as int,
                        tiles@[j].row as int,
                    );
                    assert(tiles@[j].row == tiles@[i as int].row);
                    assert(false);
                }
                assert(!pre.placed@[c]);
            }
        }
        match &t.tile {
            Ok(img) => {
                match st.place(t.row, t.col, img) {
                    Ok(()) => {},
                    Err(e) => {
                        return Err(DownloadError::Stitch(e));
                    },
                }
            },
            Err(e) => {
                return Err(DownloadError::Tile { row: t.row, col: t.col, error: *e });
            },
        }
        proof {
            let row = t.row as int;
            let col = t.col as int;
            let tc = tile_count as int;
            lemma_index_bound(tc, tc, col, row);
            assert(col * s + s <= tc * s && row * s + s <= tc * s) by (nonlinear_arith)
                requires
                    0 <= col < tc,
                    0 <= row < tc,
                    s >= 0,
            ;
            assert forall|u: int, v: int|
                0 <= u < disk_dim && 0 <= v < disk_dim && outside_grid(u, v, tc, s) implies is_black(
                #[trigger] st.canvas.at(u, v),
            ) by {
                assert(!in_tile(row, col, s, u, v));
                assert(pre.canvas.at(u, v) == st.canvas.at(u, v));
            }
            assert forall|j: int| 0 <= j < i implies {
                &&& (#[trigger] tiles@[j]).row < tile_count
                &&& tiles@[j].col < tile_count
                &&& st.placed@[st.cell(tiles@[j].row as int, tiles@[j].col as int)]
                &&& tile_in_image(st.canvas, tiles@, j, s)
            } by {
                let rj = tiles@[j].row as int;
                let cj = tiles@[j].col as int;
                lemma_index_bound(tc, tc, cj, rj);
                if rj == row && cj == col {
                    assert(pre.placed@[pre.cell(row, col)]);
                }
                assert forall|u: int, v: int|
                    0 <= u < st.canvas.width && 0 <= v < st.canvas.height && in_tile(
                        rj,
                        cj,
                        s,
                        u,
                        v,
                    ) implies #[trigger] st.canvas.at(u, v) == tiles@[j].tile->Ok_0.at(
                    u - cj * s,
                    v - rj * s,
                ) by {
                    if in_tile(row, col, s, u, v) {
                        crate::stitch::lemma_cell_same(s, row, rj, v);
                        crate::stitch::lemma_cell_same(s, col, cj, u);
                        assert(pre.placed@[pre.cell(row, col)]);
                    }
                    assert(pre.canvas.at(u, v) == st.canvas.at(u, v));
                }
            }
            assert forall|c: int|
                0 <= c < st.placed@.len() && #[trigger] st.placed@[c] implies exists|j: int|
                    0 <= j < i + 1 && c == st.cell(
                        (#[trigger] tiles@[j]).row as int,
                        tiles@[j].col as int,
                    ) by {
                if c == st.cell(row, col) {
                    assert(tiles@[i as int] == *t);
                } else {
                    assert(pre.placed@[c]);
                }
            }
        }
        i = i + 1;
    }
    let ghost fin = st;
    proof {
        if tiles_fill_grid(tiles@, tile_count as int, s) {
            let tc = tile_count as int;
            assert forall|c: int| 0 <= c < fin.placed@.len() implies #[trigger] fin.placed@[c] by {
                vstd::arithmetic::div_mod::lemma_fundamental_div_mod(c, tc);
                assert(0 <= c / tc < tc) by (nonlinear_arith)
                    requires
                        c == tc * (c / tc) + c % tc,
                        0 <= c % tc < tc,
                        0 <= c < tc * tc,
                ;
                let row = c / tc;
                let col = c % tc;
                assert(has_tile(tiles@, tiles@.len() as int, row, col));
                let j = choose|j: int|
                    0 <= j < tiles@.len() && #[trigger] tiles@[j].row == row && tiles@[j].col
                        == col;
                assert(c == row * tc + col) by (nonlinear_arith)
                    requires
                        c == tc * (c / tc) + c % tc,
                        row == c / tc,
                        col == c % tc,
                ;
            }
        }
    }
    match st.finish() {
        Ok(img) => {
            proof {
                let tc = tile_count as int;
                assert forall|row: int, col: int|
                    0 <= row < tile_count && 0 <= col < tile_count implies has_tile(
                        tiles@,
                        tiles@.len() as int,
                        row,
                        col,
                    ) by {
                    lemma_index_bound(tc, tc, col, row);
                    let c = fin.cell(row, col);
                    assert(fin.placed@[c]);
                    let j = choose|j: int|
                        0 <= j < tiles@.len() && c == fin.cell(
                            (#[trigger] tiles@[j]).row as int,
                            tiles@[j].col as int,
                        );
                    lemma_index_unique(
                        tc,
                        col,
                        row,
                        tiles@[j].col as int,
                        tiles@[j].row as int,
                    );
                }
            }
            Ok(img)
        },
        Err(e) => Err(DownloadError::Stitch(e)),
    }
}

/// The timestamp a poll goes by: the one fetched, or, when the fetch failed,
/// the one tracked so far (0 before any).
pub open spec fn polled(last: Option<u64>, fetched: Option<u64>) -> u64 {
    match fetched {
        Some(t) => t,
        None => match last {
            Some(l) => l,
            None => 0,
        },
    }
}

/// The timestamp tracked after a cycle: the new one once an output was
/// composited, else the old one.
pub open spec fn next_timestamp(last: Option<u64>, new: u64, composited: bool) -> Option<u64> {
    if composited {
        Some(new)
    } else {
        last
    }
}

/// Decides whether a poll calls for a new composition: `Some` with the
/// timestamp to composite for when it differs from the one tracked.
pub fn check_timestamp(last: Option<u64>, fetched: Option<u64>) -> (r: Option<u64>)
    ensures
        r == if last == Some(polled(last, fetched)) {
            None::<u64>
        } else {
            Some(polled(last, fetched))
        },
{
    let new = match fetched {
        Some(t) => t,
        None => match last {
            Some(l) => l,
            None => 0,
        },
    };
    match last {
        Some(old_ts) => if old_ts == new {
            None
        } else {
            Some(new)
        },
        None => Some(new),
    }
}

/// The timestamp to track after a cycle for `new` that did or did not
/// composite an output.
pub fn record_cycle(last: Option<u64>, new: u64, composited: bool) -> (r: Option<u64>)
    ensures
        r == next_timestamp(last, new, composited),
{
    if composited {
        Some(new)
    } else {
        last
    }
}

/// Whether a cycle whose download ended as `download` writes an output, and
/// the timestamp tracked after it.
pub open spec fn cycle_outcome(
    last: Option<u64>,
    new: u64,
    download: Result<Image, DownloadError>,
) -> (bool, Option<u64>) {
    (download is Ok, next_timestamp(last, new, download is Ok))
}

/// Whether a cycle whose download ended as `download` writes an output, and
/// the timestamp tracked after it.
pub fn conclude_cycle(last: Option<u64>, new: u64, download: &Result<Image, DownloadError>) -> (r: (
    bool,
    Option<u64>,
))
    ensures
        r == cycle_outcome(last, new, *download),
{
    let ok = download.is_ok();
    (ok, record_cycle(last, new, ok))
}

/// A cycle in which a tile fails writes no output and leaves the tracked
/// timestamp where it was: `download` stands for what `assemble` returned for
/// `tiles`, of which it promises that a failed tile makes it a tile error.
pub proof fn lemma_aborted_cycle(
    last: Option<u64>,
    new: u64,
    tiles: Seq<TileResult>,
    download: Result<Image, DownloadError>,
)
    requires
        any_tile_failed(tiles),
        any_tile_failed(tiles) ==> download matches Err(DownloadError::Tile { .. }),
    ensures
        download matches Err(DownloadError::Tile { .. }),
        cycle_outcome(last, new, download) == (false, last),
{
}

} // verus!
