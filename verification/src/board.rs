//! The grid value types: cells, coordinates and the board snapshot,
//! with bounds-checked lookup, single-cell replacement and neighbor
//! enumeration.

use vstd::prelude::*;

verus! {

/// One grid position's state: a mine, a blank with no adjacent mines, or a
/// numeric hint whose `count` is the number of adjacent mines.
#[derive(Debug, PartialEq, Eq, Structural, Clone, Copy)]
pub enum MapElement {
    Mine { open: bool },
    Empty { open: bool },
    Number { open: bool, count: i32 },
}

impl MapElement {
    /// Whether the cell has been revealed to the player.
    pub open spec fn is_open(self) -> bool {
        match self {
            MapElement::Mine { open } => open,
            MapElement::Empty { open } => open,
            MapElement::Number { open, .. } => open,
        }
    }
}

/// An integer coordinate pair.  Coordinates are signed so that neighbor
/// computation at grid edges may go negative before being range-checked.
#[derive(Debug, PartialEq, Eq, Structural, Clone, Copy)]
pub struct Point {
    pub x: i32,
    pub y: i32,
}

impl Point {
    pub fn new(x: usize, y: usize) -> (p: Point)
        requires
            x <= i32::MAX,
            y <= i32::MAX,
        ensures
            p.x == x,
            p.y == y,
    {
        Point { x: x as i32, y: y as i32 }
    }
}

/// An immutable snapshot of the whole game state: a rectangular grid of
/// cells in row-major order, its dimensions, and the number of mines fixed
/// at generation.
pub struct Board {
    pub map: Vec<Vec<MapElement>>,
    pub width: usize,
    pub height: usize,
    pub mines: usize,
}

impl Board {
    /// The grid is rectangular, `height` rows of `width` cells each, and
    /// every cell is addressable by an `i32` coordinate.
    pub open spec fn wf(self) -> bool {
        &&& self.map@.len() == self.height
        &&& forall|y: int| 0 <= y < self.height ==> (#[trigger] self.map@[y])@.len() == self.width
        &&& self.width <= i32::MAX
        &&& self.height <= i32::MAX
    }

    pub open spec fn in_bounds(self, x: int, y: int) -> bool {
        0 <= x < self.width && 0 <= y < self.height
    }

    /// The cell in column `x` of row `y`.
    pub open spec fn cell(self, x: int, y: int) -> MapElement {
        self.map@[y]@[x]
    }

    /// Bounds-checked lookup: the cell at `p`, or `None` for any point
    /// outside the grid.  Absence is normal control flow, not an error:
    /// neighbor queries at edges and corners are expected to land outside.
    pub fn at(&self, p: &Point) -> (r: Option<MapElement>)
        requires
            self.wf(),
        ensures
            r == (if self.in_bounds(p.x as int, p.y as int) {
                Some(self.cell(p.x as int, p.y as int))
            } else {
                None::<MapElement>
            }),
    {
        let width = self.width as i32;
        let height = self.height as i32;
        if p.x < 0 || p.x >= width || p.y < 0 || p.y >= height {
            None
        } else {
            let x = p.x as usize;
            let y = p.y as usize;
            Some(self.map[y][x])
        }
    }

    /// A new board identical to this one except that the cell at `p` is
    /// `el`.  The full grid is rebuilt row-major; the input is unmodified.
    /// Passing an out-of-bounds point is a programming error, excluded by
    /// precondition.
    pub fn replace(&self, p: &Point, el: MapElement) -> (b: Board)
        requires
            self.wf(),
            self.in_bounds(p.x as int, p.y as int),
        ensures
            b.wf(),
            b.width == self.width,
            b.height == self.height,
            b.mines == self.mines,
            forall|x: int, y: int|
                b.in_bounds(x, y) ==> #[trigger] b.cell(x, y) == (if x == p.x && y == p.y {
                    el
                } else {
                    self.cell(x, y)
                }),
    {
        let mut map: Vec<Vec<MapElement>> = Vec::new();
        let mut y: usize = 0;
        while y < self.height
            invariant
                self.wf(),
                self.in_bounds(p.x as int, p.y as int),
                y <= self.height,
                map@.len() == y,
                forall|yy: int| 0 <= yy < y ==> (#[trigger] map@[yy])@.len() == self.width,
                forall|xx: int, yy: int|
                    0 <= xx < self.width && 0 <= yy < y ==> #[trigger] map@[yy]@[xx] == (if xx
                        == p.x && yy == p.y {
                        el
                    } else {
                        self.cell(xx, yy)
                    }),
            decreases self.height - y,
        {
            let mut row: Vec<MapElement> = Vec::new();
            let mut x: usize = 0;
            while x < self.width
                invariant
                    self.wf(),
                    self.in_bounds(p.x as int, p.y as int),
                    y < self.height,
                    x <= self.width,
                    row@.len() == x,
                    forall|xx: int|
                        0 <= xx < x ==> #[trigger] row@[xx] == (if xx == p.x && y == p.y {
                            el
                        } else {
                            self.cell(xx, y as int)
                        }),
                decreases self.width - x,
            {
                let c = if x as i32 == p.x && y as i32 == p.y {
                    el
                } else {
                    self.map[y][x]
                };
                row.push(c);
                x += 1;
            }
            map.push(row);
            y += 1;
        }
        Board { map, width: self.width, height: self.height, mines: self.mines }
    }
}

/// The up to 8 points forming the 3-by-3 block centered on `p`, excluding
/// `p` itself, ordered with x as the outer dimension and y as the inner
/// one.  The result may include coordinates outside any particular board;
/// callers bounds-check through `Board::at`.
pub fn surrounding_points(p: &Point) -> (r: Vec<Point>)
    requires
        i32::MIN < p.x < i32::MAX,
        i32::MIN < p.y < i32::MAX,
    ensures
        r@.len() == 8,
        r@[0].x == p.x - 1 && r@[0].y == p.y - 1,
        r@[1].x == p.x - 1 && r@[1].y == p.y,
        r@[2].x == p.x - 1 && r@[2].y == p.y + 1,
        r@[3].x == p.x && r@[3].y == p.y - 1,
        r@[4].x == p.x && r@[4].y == p.y + 1,
        r@[5].x == p.x + 1 && r@[5].y == p.y - 1,
        r@[6].x == p.x + 1 && r@[6].y == p.y,
        r@[7].x == p.x + 1 && r@[7].y == p.y + 1,
{
    let mut r: Vec<Point> = Vec::new();
    r.push(Point { x: p.x - 1, y: p.y - 1 });
    r.push(Point { x: p.x - 1, y: p.y });
    r.push(Point { x: p.x - 1, y: p.y + 1 });
    r.push(Point { x: p.x, y: p.y - 1 });
    r.push(Point { x: p.x, y: p.y + 1 });
    r.push(Point { x: p.x + 1, y: p.y - 1 });
    r.push(Point { x: p.x + 1, y: p.y });
    r.push(Point { x: p.x + 1, y: p.y + 1 });
    r
}

} // verus!
