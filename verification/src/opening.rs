//! The board mutator: reveals a single cell, producing a fresh board.
//! Revealing does not cascade to neighbors; that is the host's concern,
//! layered on repeated single-cell reveals.

use vstd::prelude::*;
use vstd::pervasive::unreached;
use crate::board::Board;
use crate::board::MapElement;
use crate::board::Point;

verus! {

/// `open_item`'s precondition: the point is on the board and its cell is
/// an unrevealed blank or an unrevealed hint.  Revealing a mine, an
/// already-revealed cell or an absent cell is a programming error.
pub open spec fn can_open(b: Board, p: Point) -> bool {
    &&& b.in_bounds(p.x as int, p.y as int)
    &&& match b.cell(p.x as int, p.y as int) {
        MapElement::Mine { .. } => false,
        MapElement::Empty { open } => !open,
        MapElement::Number { open, .. } => !open,
    }
}

/// The cell as it looks once revealed: the same variant and count, with
/// the revealed flag set.
pub open spec fn revealed_cell(c: MapElement) -> MapElement {
    match c {
        MapElement::Mine { .. } => MapElement::Mine { open: true },
        MapElement::Empty { .. } => MapElement::Empty { open: true },
        MapElement::Number { count, .. } => MapElement::Number { open: true, count },
    }
}

/// How the board after a reveal relates to the board before it: the cell
/// at `p` has its revealed flag set, and every other cell is unchanged.
pub open spec fn opened_board(before: Board, p: Point, after: Board) -> bool {
    &&& after.wf()
    &&& after.width == before.width
    &&& after.height == before.height
    &&& after.mines == before.mines
    &&& forall|x: int, y: int|
        after.in_bounds(x, y) ==> #[trigger] after.cell(x, y) == (if x == p.x && y == p.y {
            revealed_cell(before.cell(x, y))
        } else {
            before.cell(x, y)
        })
}

/// Reveals the cell at `point`, returning a new board on which only that
/// cell changed.  The cell must be an unrevealed blank or hint.
pub fn open_item(board: Board, point: Point) -> (b: Board)
    requires
        board.wf(),
        can_open(board, point),
    ensures
        opened_board(board, point, b),
{
    let newpoint = match board.at(&point) {
        Some(MapElement::Empty { open: false }) => MapElement::Empty { open: true },
        Some(MapElement::Number { open: false, count }) => MapElement::Number {
            open: true,
            count,
        },
        _ => unreached(),
    };
    board.replace(&point, newpoint)
}

/// A cell can be revealed at most once: after a reveal, the same point no
/// longer satisfies the reveal precondition, so a second reveal of it is a
/// contract violation rather than a silent success.
pub proof fn lemma_reveal_only_once(before: Board, p: Point, after: Board)
    requires
        before.wf(),
        can_open(before, p),
        opened_board(before, p, after),
    ensures
        !can_open(after, p),
{
}

} // verus!
