//! The hint calculator: derives, for every non-mine cell, the count of
//! mines among its up-to-8 neighbors, producing a fresh annotated board.

use vstd::prelude::*;
use crate::board::Board;
use crate::board::MapElement;
use crate::board::Point;

verus! {

/// There is a mine at (`x`, `y`): the point is on the board and its cell
/// is a mine.  Out-of-bounds points carry no mine.
pub open spec fn mine_at(b: Board, x: int, y: int) -> bool {
    b.in_bounds(x, y) && b.cell(x, y) is Mine
}

pub open spec fn mine_ind(b: Board, x: int, y: int) -> int {
    if mine_at(b, x, y) {
        1
    } else {
        0
    }
}

/// The number of mines among the up-to-8 neighbors of (`x`, `y`).
/// Neighbors outside the board contribute nothing.
pub open spec fn adjacent_mines(b: Board, x: int, y: int) -> int {
    mine_ind(b, x - 1, y - 1) + mine_ind(b, x - 1, y) + mine_ind(b, x - 1, y + 1) + mine_ind(
        b,
        x,
        y - 1,
    ) + mine_ind(b, x, y + 1) + mine_ind(b, x + 1, y - 1) + mine_ind(b, x + 1, y) + mine_ind(
        b,
        x + 1,
        y + 1,
    )
}

/// What the hint calculator makes of the cell at (`x`, `y`): mines pass
/// through with their revealed flag reset, a non-mine cell becomes a blank
/// when no mine is adjacent and a hint carrying the count otherwise.
pub open spec fn annotated_cell(b: Board, x: int, y: int) -> MapElement {
    if b.cell(x, y) is Mine {
        MapElement::Mine { open: false }
    } else if adjacent_mines(b, x, y) == 0 {
        MapElement::Empty { open: false }
    } else {
        MapElement::Number { open: false, count: adjacent_mines(b, x, y) as i32 }
    }
}

/// No cell of the board carries a hint count yet, as on a board fresh from
/// the generator.
pub open spec fn unannotated(b: Board) -> bool {
    forall|x: int, y: int| b.in_bounds(x, y) ==> !(#[trigger] b.cell(x, y) is Number)
}

fn is_mine_at(b: &Board, x: i32, y: i32) -> (r: bool)
    requires
        b.wf(),
    ensures
        r == mine_at(*b, x as int, y as int),
{
    match b.at(&(Point { x, y })) {
        Some(MapElement::Mine { .. }) => true,
        _ => false,
    }
}

fn count_adjacent_mines(b: &Board, x: i32, y: i32) -> (n: i32)
    requires
        b.wf(),
        i32::MIN < x < i32::MAX,
        i32::MIN < y < i32::MAX,
    ensures
        n == adjacent_mines(*b, x as int, y as int),
        0 <= n <= 8,
{
    let mut n: i32 = 0;
    if is_mine_at(b, x - 1, y - 1) {
        n += 1;
    }
    if is_mine_at(b, x - 1, y) {
        n += 1;
    }
    if is_mine_at(b, x - 1, y + 1) {
        n += 1;
    }
    if is_mine_at(b, x, y - 1) {
        n += 1;
    }
    if is_mine_at(b, x, y + 1) {
        n += 1;
    }
    if is_mine_at(b, x + 1, y - 1) {
        n += 1;
    }
    if is_mine_at(b, x + 1, y) {
        n += 1;
    }
    if is_mine_at(b, x + 1, y + 1) {
        n += 1;
    }
    n
}

/// Computes the numeric hints of a freshly generated board: every mine
/// passes through unrevealed, and every other cell becomes a blank or a
/// hint according to the count of adjacent mines.  The result is a new
/// board; the input is a board fresh from the generator, holding only
/// mines and blanks.
pub fn numbers_on_board(board: Board) -> (b: Board)
    requires
        board.wf(),
        unannotated(board),
    ensures
        b.wf(),
        b.width == board.width,
        b.height == board.height,
        b.mines == board.mines,
        forall|x: int, y: int|
            b.in_bounds(x, y) ==> #[trigger] b.cell(x, y) == annotated_cell(board, x, y),
{
    let mut map: Vec<Vec<MapElement>> = Vec::new();
    let mut y: usize = 0;
    while y < board.height
        invariant
            board.wf(),
            y <= board.height,
            map@.len() == y,
            forall|yy: int| 0 <= yy < y ==> (#[trigger] map@[yy])@.len() == board.width,
            forall|xx: int, yy: int|
                0 <= xx < board.width && 0 <= yy < y ==> #[trigger] map@[yy]@[xx]
                    == annotated_cell(board, xx, yy),
        decreases board.height - y,
    {
        let mut row: Vec<MapElement> = Vec::new();
        let mut x: usize = 0;
        while x < board.width
            invariant
                board.wf(),
                y < board.height,
                x <= board.width,
                row@.len() == x,
                forall|xx: int|
                    0 <= xx < x ==> #[trigger] row@[xx] == annotated_cell(board, xx, y as int),
            decreases board.width - x,
        {
            let px = x as i32;
            let py = y as i32;
            let c = if is_mine_at(&board, px, py) {
                MapElement::Mine { open: false }
            } else {
                let n = count_adjacent_mines(&board, px, py);
                if n == 0 {
                    MapElement::Empty { open: false }
                } else {
                    MapElement::Number { open: false, count: n }
                }
            };
            row.push(c);
            x += 1;
        }
        map.push(row);
        y += 1;
    }
    Board { map, width: board.width, height: board.height, mines: board.mines }
}

} // verus!
