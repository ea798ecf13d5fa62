//! Counting the mines of a board, and the lemma that a grid whose mine
//! cells are exactly the points of a duplicate-free sequence holds exactly
//! that many mines.

use vstd::prelude::*;
use crate::board::Board;
use crate::board::MapElement;
use crate::board::Point;

verus! {

pub open spec fn mine_cell_ind(c: MapElement) -> int {
    if c is Mine {
        1
    } else {
        0
    }
}

pub open spec fn row_mines(row: Seq<MapElement>) -> int
    decreases row.len(),
{
    if row.len() == 0 {
        0
    } else {
        row_mines(row.drop_last()) + mine_cell_ind(row.last())
    }
}

pub open spec fn grid_mines(g: Seq<Seq<MapElement>>) -> int
    decreases g.len(),
{
    if g.len() == 0 {
        0
    } else {
        grid_mines(g.drop_last()) + row_mines(g.last())
    }
}

/// The board's rows as a sequence of cell sequences.
pub open spec fn rows_of(b: Board) -> Seq<Seq<MapElement>> {
    Seq::new(b.map@.len() as nat, |y: int| b.map@[y]@)
}

/// How many cells of the board are mines.
pub open spec fn mine_total(b: Board) -> int {
    grid_mines(rows_of(b))
}

/// The grid is `h` rows of `w` cells each.
pub open spec fn grid_rect(g: Seq<Seq<MapElement>>, w: int, h: int) -> bool {
    &&& g.len() == h
    &&& forall|y: int| 0 <= y < h ==> (#[trigger] g[y]).len() == w
}

/// The grid's mine cells are exactly the points of `pts`: unrevealed mines
/// there, unrevealed blanks everywhere else.
pub open spec fn grid_matches(g: Seq<Seq<MapElement>>, w: int, h: int, pts: Seq<Point>) -> bool {
    forall|x: int, y: int|
        0 <= x < w && 0 <= y < h ==> #[trigger] g[y][x] == (if pts.contains(
            Point { x: x as i32, y: y as i32 },
        ) {
            MapElement::Mine { open: false }
        } else {
            MapElement::Empty { open: false }
        })
}

/// All points of `pts` lie within a `w`-by-`h` grid.
pub open spec fn points_within(pts: Seq<Point>, w: int, h: int) -> bool {
    forall|i: int|
        0 <= i < pts.len() ==> 0 <= #[trigger] pts[i].x < w && 0 <= pts[i].y < h
}

proof fn lemma_row_mines_zero(row: Seq<MapElement>)
    requires
        forall|x: int| 0 <= x < row.len() ==> !(#[trigger] row[x] is Mine),
    ensures
        row_mines(row) == 0,
    decreases row.len(),
{
    if row.len() > 0 {
        lemma_row_mines_zero(row.drop_last());
    }
}

proof fn lemma_grid_mines_zero(g: Seq<Seq<MapElement>>)
    requires
        forall|x: int, y: int|
            0 <= y < g.len() && 0 <= x < g[y].len() ==> !(#[trigger] g[y][x] is Mine),
    ensures
        grid_mines(g) == 0,
    decreases g.len(),
{
    if g.len() > 0 {
        lemma_row_mines_zero(g.last());
        lemma_grid_mines_zero(g.drop_last());
    }
}

proof fn lemma_row_mines_update(row: Seq<MapElement>, x: int, c: MapElement)
    requires
        0 <= x < row.len(),
    ensures
        row_mines(row.update(x, c)) == row_mines(row) - mine_cell_ind(row[x]) + mine_cell_ind(c),
    decreases row.len(),
{
    let r2 = row.update(x, c);
    if x == row.len() - 1 {
        assert(r2.drop_last() =~= row.drop_last());
    } else {
        assert(r2.drop_last() =~= row.drop_last().update(x, c));
        lemma_row_mines_update(row.drop_last(), x, c);
    }
}

proof fn lemma_grid_mines_update(g: Seq<Seq<MapElement>>, y: int, r: Seq<MapElement>)
    requires
        0 <= y < g.len(),
    ensures
        grid_mines(g.update(y, r)) == grid_mines(g) - row_mines(g[y]) + row_mines(r),
    decreases g.len(),
{
    let g2 = g.update(y, r);
    if y == g.len() - 1 {
        assert(g2.drop_last() =~= g.drop_last());
    } else {
        assert(g2.drop_last() =~= g.drop_last().update(y, r));
        lemma_grid_mines_update(g.drop_last(), y, r);
    }
}

/// A duplicate-free point sequence lying within the grid marks exactly as
/// many mine cells as it has points.
proof fn lemma_grid_mines_matches(g: Seq<Seq<MapElement>>, w: int, h: int, pts: Seq<Point>)
    requires
        grid_rect(g, w, h),
        0 <= w <= i32::MAX,
        0 <= h <= i32::MAX,
        grid_matches(g, w, h, pts),
        pts.no_duplicates(),
        points_within(pts, w, h),
    ensures
        grid_mines(g) == pts.len(),
    decreases pts.len(),
{
    if pts.len() == 0 {
        assert forall|x: int, y: int|
            0 <= y < g.len() && 0 <= x < g[y].len() implies !(#[trigger] g[y][x] is Mine) by {
            assert(!pts.contains(Point { x: x as i32, y: y as i32 }));
        }
        lemma_grid_mines_zero(g);
    } else {
        let p = pts.last();
        let pts2 = pts.drop_last();
        let px = p.x as int;
        let py = p.y as int;
        assert(pts.contains(p));
        assert(g[py][px] == MapElement::Mine { open: false });
        let row2 = g[py].update(px, MapElement::Empty { open: false });
        let g2 = g.update(py, row2);
        assert(grid_rect(g2, w, h));
        // the reduced grid is marked by the reduced point sequence
        assert forall|x: int, y: int| 0 <= x < w && 0 <= y < h implies #[trigger] g2[y][x] == (
        if pts2.contains(Point { x: x as i32, y: y as i32 }) {
            MapElement::Mine { open: false }
        } else {
            MapElement::Empty { open: false }
        }) by {
            let q = Point { x: x as i32, y: y as i32 };
            if x == px && y == py {
                assert(q == p);
                if pts2.contains(q) {
                    let i = choose|i: int| 0 <= i < pts2.len() && pts2[i] == q;
                    assert(pts[i] == pts[pts.len() - 1]);
                    assert(false);
                }
            } else {
                assert(q != p);
                assert(g2[y][x] == g[y][x]);
                if pts2.contains(q) {
                    let i = choose|i: int| 0 <= i < pts2.len() && pts2[i] == q;
                    assert(pts[i] == q);
                    assert(pts.contains(q));
                }
                if pts.contains(q) {
                    let i = choose|i: int| 0 <= i < pts.len() && pts[i] == q;
                    assert(i != pts.len() - 1);
                    assert(pts2[i] == q);
                    assert(pts2.contains(q));
                }
            }
        }
        lemma_grid_mines_matches(g2, w, h, pts2);
        lemma_row_mines_update(g[py], px, MapElement::Empty { open: false });
        lemma_grid_mines_update(g, py, row2);
    }
}

/// A well-formed board whose mine cells are exactly the points of a
/// duplicate-free in-bounds sequence holds exactly that many mines.
pub proof fn lemma_mine_total_from_layout(b: Board, pts: Seq<Point>)
    requires
        b.wf(),
        pts.no_duplicates(),
        points_within(pts, b.width as int, b.height as int),
        forall|x: int, y: int|
            b.in_bounds(x, y) ==> #[trigger] b.cell(x, y) == (if pts.contains(
                Point { x: x as i32, y: y as i32 },
            ) {
                MapElement::Mine { open: false }
            } else {
                MapElement::Empty { open: false }
            }),
    ensures
        mine_total(b) == pts.len(),
{
    let g = rows_of(b);
    assert(grid_rect(g, b.width as int, b.height as int));
    assert forall|x: int, y: int|
        0 <= x < b.width && 0 <= y < b.height implies #[trigger] g[y][x] == (if pts.contains(
        Point { x: x as i32, y: y as i32 },
    ) {
        MapElement::Mine { open: false }
    } else {
        MapElement::Empty { open: false }
    }) by {
        assert(g[y][x] == b.cell(x, y));
    }
    lemma_grid_mines_matches(g, b.width as int, b.height as int, pts);
}

} // verus!
