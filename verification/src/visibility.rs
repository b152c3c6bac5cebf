//! The grid's side of lighting: the squares that tiles cover on the plane,
//! and the scan of the grid for the tiles that lie inside a lamp's light.
//!
//! What a lamp sees is a polygon on the plane, and finding it is geometry
//! that this library leaves to its caller. The caller is handed the squares
//! of the walls and the point of the lamp, and says of each tile's square
//! whether it lies inside the light.

use vstd::prelude::*;
use crate::room::Tile;

verus! {

/// The length of a tile's side on the plane.
pub const TILE_SIZE: i64 = 16;

/// The square of side `TILE_SIZE` whose corner with the least coordinates
/// is `(left, top)`.
#[derive(Clone, Copy, Debug, PartialEq, Eq, Structural)]
pub struct Square {
    pub left: i64,
    pub top: i64,
}

/// The square that the tile of column `x` and row `y` covers.
pub open spec fn square_of(x: int, y: int) -> Square {
    Square { left: (x * TILE_SIZE) as i64, top: (y * TILE_SIZE) as i64 }
}

/// The squares of the opaque tiles among `tiles`, in the order of the
/// tiles; `width` is the length of a row.
pub open spec fn walls_of(tiles: Seq<Tile>, width: int) -> Seq<Square>
    decreases tiles.len(),
{
    if tiles.len() == 0 {
        Seq::empty()
    } else {
        let before = walls_of(tiles.drop_last(), width);
        let i = tiles.len() - 1;
        if tiles.last().is_transparent() {
            before
        } else {
            before.push(square_of(i % width, i / width))
        }
    }
}

/// The index of the tile of column `x` and row `y` in a row-major grid of
/// rows of length `width`.
pub open spec fn cell_index(x: int, y: int, width: int) -> int {
    x + y * width
}

pub fn tile_square(x: usize, y: usize) -> (square: Square)
    requires
        x <= i32::MAX,
        y <= i32::MAX,
    ensures
        square == square_of(x as int, y as int),
        square.left == x * TILE_SIZE,
        square.top == y * TILE_SIZE,
{
    Square { left: x as i64 * TILE_SIZE, top: y as i64 * TILE_SIZE }
}

/// The point from which a lamp on the tile `(x, y)` shines: the middle of
/// the tile's square.
pub fn lamp_point(x: i32, y: i32) -> (point: (i64, i64))
    ensures
        point.0 == x * TILE_SIZE + TILE_SIZE / 2,
        point.1 == y * TILE_SIZE + TILE_SIZE / 2,
{
    (x as i64 * TILE_SIZE + TILE_SIZE / 2, y as i64 * TILE_SIZE + TILE_SIZE / 2)
}

/// The squares of the tiles that stop light, in the order of the tiles.
pub fn wall_squares(tiles: &Vec<Tile>, width: usize) -> (walls: Vec<Square>)
    requires
        width > 0,
        tiles@.len() <= i32::MAX,
    ensures
        walls@ == walls_of(tiles@, width as int),
{
    let mut walls: Vec<Square> = Vec::new();
    let mut i: usize = 0;
    while i < tiles.len()
        invariant
            0 <= i <= tiles@.len(),
            width > 0,
            tiles@.len() <= i32::MAX,
            walls@ == walls_of(tiles@.subrange(0, i as int), width as int),
        decreases tiles@.len() - i,
    {
        proof {
            let next = tiles@.subrange(0, i as int + 1);
            assert(next.drop_last() =~= tiles@.subrange(0, i as int));
            assert(next.last() == tiles@[i as int]);
        }
        if !tiles[i].is_transparent() {
            assert(i % width <= i && i / width <= i) by (nonlinear_arith)
                requires
                    width > 0,
                    i >= 0,
            ;
            walls.push(tile_square(i % width, i / width));
        }
        i = i + 1;
    }
    proof {
        assert(tiles@.subrange(0, i as int) =~= tiles@);
    }
    walls
}

/// Whether `cells` is what a scan of a grid of `width` by `height` tiles
/// with `inside` can return: the indices come in increasing order, each is
/// the index of a tile of which `inside` said yes, and of every other tile
/// of the grid `inside` said no.
pub open spec fn is_scan<F: Fn(usize, usize) -> bool>(cells: Seq<usize>, width: usize, height: usize, inside: &F) -> bool {
    &&& forall|j: int, k: int| 0 <= j < k < cells.len() ==> cells[j] < cells[k]
    &&& forall|k: int|
        0 <= k < cells.len() ==> cells[k] < width * height && exists|x: usize, y: usize|
            x < width && y < height && cells[k] == cell_index(x as int, y as int, width as int)
                && #[trigger] inside.ensures((x, y), true)
    &&& forall|x: usize, y: usize|
        x < width && y < height ==> cells.contains(cell_index(x as int, y as int, width as int) as usize)
            || #[trigger] inside.ensures((x, y), false)
}

/// Whether `inside` gives one answer for each tile of the grid, whenever
/// it is asked.
pub open spec fn answers_alike<F: Fn(usize, usize) -> bool>(width: usize, height: usize, inside: &F) -> bool {
    forall|x: usize, y: usize|
        x < width && y < height ==> !(#[trigger] inside.ensures((x, y), true) && inside.ensures((x, y), false))
}

/// Scans a grid of `width` by `height` tiles in reading order and returns
/// the indices of the tiles of which `inside` says yes; see [`is_scan`].
pub fn cells_within<F: Fn(usize, usize) -> bool>(width: usize, height: usize, inside: &F) -> (cells: Vec<usize>)
    requires
        width * height <= usize::MAX,
        forall|x: usize, y: usize| x < width && y < height ==> #[trigger] inside.requires((x, y)),
    ensures
        is_scan(cells@, width, height, inside),
{
    let mut cells: Vec<usize> = Vec::new();
    let mut y: usize = 0;
    while y < height
        invariant
            0 <= y <= height,
            width * height <= usize::MAX,
            forall|x: usize, y: usize| x < width && y < height ==> #[trigger] inside.requires((x, y)),
            forall|j: int, k: int| 0 <= j < k < cells@.len() ==> cells@[j] < cells@[k],
            forall|k: int| 0 <= k < cells@.len() ==> cells@[k] < y * width,
            forall|k: int|
                0 <= k < cells@.len() ==> cells@[k] < width * height && exists|x: usize, y: usize|
                    x < width && y < height && cells@[k] == cell_index(x as int, y as int, width as int)
                        && #[trigger] inside.ensures((x, y), true),
            forall|a: usize, b: usize|
                a < width && b < y ==> cells@.contains(cell_index(a as int, b as int, width as int) as usize)
                    || #[trigger] inside.ensures((a, b), false),
        decreases height - y,
    {
        proof {
            lemma_row_fits(y as int, width as int, height as int);
        }
        let row = y * width;
        let mut x: usize = 0;
        while x < width
            invariant
                0 <= x <= width,
                y < height,
                row == y * width,
                row + width <= width * height,
                width * height <= usize::MAX,
                forall|x: usize, y: usize| x < width && y < height ==> #[trigger] inside.requires((x, y)),
                forall|j: int, k: int| 0 <= j < k < cells@.len() ==> cells@[j] < cells@[k],
                forall|k: int| 0 <= k < cells@.len() ==> cells@[k] < row + x,
                forall|k: int|
                    0 <= k < cells@.len() ==> cells@[k] < width * height && exists|x: usize, y: usize|
                        x < width && y < height && cells@[k] == cell_index(x as int, y as int, width as int)
                            && #[trigger] inside.ensures((x, y), true),
                forall|a: usize, b: usize|
                    a < width && (b < y || (b == y && a < x)) ==> cells@.contains(
                        cell_index(a as int, b as int, width as int) as usize,
                    ) || #[trigger] inside.ensures((a, b), false),
            decreases width - x,
        {
            let ghost before = cells@;
            let found = inside(x, y);
            if found {
                let idx = x + row;
                cells.push(idx);
                proof {
                    assert(cells@[before.len() as int] == idx);
                    assert(idx == cell_index(x as int, y as int, width as int));
                    assert forall|k: int| 0 <= k < cells@.len() implies cells@[k] < width * height && exists|
                        x: usize,
                        y: usize,
                    |
                        x < width && y < height && cells@[k] == cell_index(x as int, y as int, width as int)
                            && #[trigger] inside.ensures((x, y), true) by {
                        if k < before.len() {
                            assert(cells@[k] == before[k]);
                        } else {
                            assert(inside.ensures((x, y), true));
                        }
                    }
                    assert forall|a: usize, b: usize|
                        a < width && (b < y || (b == y && a < x + 1)) implies cells@.contains(
                        cell_index(a as int, b as int, width as int) as usize,
                    ) || #[trigger] inside.ensures((a, b), false) by {
                        if b == y && a == x {
                            assert(cells@[before.len() as int] == cell_index(a as int, b as int, width as int) as usize);
                        } else if before.contains(cell_index(a as int, b as int, width as int) as usize) {
                            let k = choose|k: int|
                                0 <= k < before.len() && before[k] == cell_index(a as int, b as int, width as int) as usize;
                            assert(cells@[k] == before[k]);
                        }
                    }
                }
            }
            x = x + 1;
        }
        proof {
            assert(row + width == (y + 1) * width) by (nonlinear_arith)
                requires
                    row == y * width,
            ;
        }
        y = y + 1;
    }
    cells
}

/// A row of the grid ends before the grid does.
proof fn lemma_row_fits(y: int, width: int, height: int)
    requires
        0 <= y < height,
        0 <= width,
    ensures
        0 <= y * width,
        y * width + width <= width * height,
{
    assert(y * width + width <= width * height && 0 <= y * width) by (nonlinear_arith)
        requires
            0 <= y < height,
            0 <= width,
    ;
}

/// Two increasing lists with the same entries are the same list.
proof fn lemma_increasing_lists(a: Seq<usize>, b: Seq<usize>)
    requires
        forall|j: int, k: int| 0 <= j < k < a.len() ==> a[j] < a[k],
        forall|j: int, k: int| 0 <= j < k < b.len() ==> b[j] < b[k],
        forall|v: usize| a.contains(v) <==> b.contains(v),
    ensures
        a == b,
    decreases a.len(),
{
    if a.len() == 0 {
        if b.len() > 0 {
            assert(b.contains(b[0]));
        }
        assert(a =~= b);
    } else {
        assert(a.contains(a[0]));
        let i = choose|i: int| 0 <= i < b.len() && b[i] == a[0];
        assert(b.contains(b[0]));
        let j = choose|j: int| 0 <= j < a.len() && a[j] == b[0];
        assert(a[0] == b[0]);
        let ra = a.drop_first();
        let rb = b.drop_first();
        assert forall|v: usize| ra.contains(v) <==> rb.contains(v) by {
            if ra.contains(v) {
                let k = choose|k: int| 0 <= k < ra.len() && ra[k] == v;
                assert(a[k + 1] == v);
                assert(a.contains(v));
                let m = choose|m: int| 0 <= m < b.len() && b[m] == v;
                assert(m > 0);
                assert(rb[m - 1] == v);
            }
            if rb.contains(v) {
                let k = choose|k: int| 0 <= k < rb.len() && rb[k] == v;
                assert(b[k + 1] == v);
                assert(b.contains(v));
                let m = choose|m: int| 0 <= m < a.len() && a[m] == v;
                assert(m > 0);
                assert(ra[m - 1] == v);
            }
        }
        assert forall|j: int, k: int| 0 <= j < k < ra.len() implies ra[j] < ra[k] by {
            assert(ra[j] == a[j + 1] && ra[k] == a[k + 1]);
        }
        assert forall|j: int, k: int| 0 <= j < k < rb.len() implies rb[j] < rb[k] by {
            assert(rb[j] == b[j + 1] && rb[k] == b[k + 1]);
        }
        lemma_increasing_lists(ra, rb);
        assert(a =~= seq![a[0]] + ra);
        assert(b =~= seq![b[0]] + rb);
    }
}

/// Every entry of one scan is an entry of another, where `inside` gives one
/// answer for each tile.
proof fn lemma_scans_share<F: Fn(usize, usize) -> bool>(
    a: Seq<usize>,
    b: Seq<usize>,
    width: usize,
    height: usize,
    inside: &F,
    v: usize,
)
    requires
        is_scan(a, width, height, inside),
        is_scan(b, width, height, inside),
        answers_alike(width, height, inside),
        a.contains(v),
    ensures
        b.contains(v),
{
    let k = choose|k: int| 0 <= k < a.len() && a[k] == v;
    let (x, y) = choose|x: usize, y: usize|
        x < width && y < height && a[k] == cell_index(x as int, y as int, width as int) && #[trigger] inside.ensures(
            (x, y),
            true,
        );
    assert(!inside.ensures((x, y), false));
}

/// The scan is stable: where the geometry gives one answer for each tile,
/// scanning the same grid again yields the same cells.
pub proof fn law_scan_is_stable<F: Fn(usize, usize) -> bool>(
    first: Seq<usize>,
    second: Seq<usize>,
    width: usize,
    height: usize,
    inside: &F,
)
    requires
        is_scan(first, width, height, inside),
        is_scan(second, width, height, inside),
        answers_alike(width, height, inside),
    ensures
        first == second,
{
    assert forall|v: usize| first.contains(v) <==> second.contains(v) by {
        if first.contains(v) {
            lemma_scans_share(first, second, width, height, inside, v);
        }
        if second.contains(v) {
            lemma_scans_share(second, first, width, height, inside, v);
        }
    }
    lemma_increasing_lists(first, second);
}

} // verus!
