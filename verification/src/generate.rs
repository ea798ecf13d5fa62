//! The board generator: places `mines` mines at distinct points of a
//! fresh `width`-by-`height` grid by rejection sampling from an injected
//! random source, retrying any point drawn twice.

use vstd::prelude::*;
use crate::board::Board;
use crate::board::MapElement;
use crate::board::Point;
use crate::mines::lemma_mine_total_from_layout;
use crate::mines::mine_total;
use crate::mines::points_within;
use crate::rand_source::RandomSource;

verus! {

/// Mine selection by rejection sampling, as a fueled relation: starting
/// from the partial selection `pts0` with the source in state `r0`, and
/// drawing at most `fuel` coordinate pairs, selection finishes with the
/// point sequence `pts1`, leaving the source in state `r1`.  Each draw
/// takes x then y from the source; a point already selected is rejected
/// and drawing continues.
pub open spec fn picks<R: RandomSource>(
    w: usize,
    h: usize,
    m: usize,
    pts0: Seq<Point>,
    r0: R,
    fuel: nat,
    pts1: Seq<Point>,
    r1: R,
) -> bool
    decreases fuel,
{
    if pts0.len() >= m {
        pts1 == pts0 && r1 == r0
    } else if fuel == 0 {
        false
    } else {
        exists|x: usize, rx: R, y: usize, ry: R|
            #![trigger R::next_rel(r0, 0, w, x, rx), R::next_rel(rx, 0, h, y, ry)]
            {
                &&& R::next_rel(r0, 0, w, x, rx)
                &&& R::next_rel(rx, 0, h, y, ry)
                &&& (if pts0.contains(Point { x: x as i32, y: y as i32 }) {
                    picks(w, h, m, pts0, ry, (fuel - 1) as nat, pts1, r1)
                } else {
                    picks(
                        w,
                        h,
                        m,
                        pts0.push(Point { x: x as i32, y: y as i32 }),
                        ry,
                        (fuel - 1) as nat,
                        pts1,
                        r1,
                    )
                })
            }
    }
}

/// The injected source drives mine selection to completion: some finite
/// number of draws yields `m` distinct points.  This is the caller's
/// burden when injecting a source; with a duplicate-yielding source that
/// never recovers, the rejection-sampling loop would not terminate.
pub open spec fn generation_completes<R: RandomSource>(w: usize, h: usize, m: usize, r0: R) -> bool {
    exists|fuel: nat, pts: Seq<Point>, r1: R|
        picks(w, h, m, Seq::<Point>::empty(), r0, fuel, pts, r1)
}

/// From initial source state `r0`, mine selection yields exactly the
/// point sequence `pts` and leaves the source in state `r1`.
pub open spec fn generates<R: RandomSource>(
    w: usize,
    h: usize,
    m: usize,
    r0: R,
    pts: Seq<Point>,
    r1: R,
) -> bool {
    exists|fuel: nat| picks(w, h, m, Seq::<Point>::empty(), r0, fuel, pts, r1)
}

/// The board's cells are unrevealed mines exactly at the points of `pts`
/// and unrevealed blanks everywhere else.
pub open spec fn mine_layout(b: Board, pts: Seq<Point>) -> bool {
    forall|x: int, y: int|
        b.in_bounds(x, y) ==> #[trigger] b.cell(x, y) == (if pts.contains(
            Point { x: x as i32, y: y as i32 },
        ) {
            MapElement::Mine { open: false }
        } else {
            MapElement::Empty { open: false }
        })
}

/// Everything `create_board` promises: a well-formed `w`-by-`h` board
/// whose mine cells are a duplicate-free in-bounds selection of `m`
/// points that the source, started in state `r0`, yields while ending in
/// state `r1`.
pub open spec fn generated_board<R: RandomSource>(
    w: usize,
    h: usize,
    m: usize,
    r0: R,
    b: Board,
    r1: R,
) -> bool {
    &&& b.wf()
    &&& b.width == w
    &&& b.height == h
    &&& b.mines == m
    &&& exists|pts: Seq<Point>|
        {
            &&& #[trigger] generates(w, h, m, r0, pts, r1)
            &&& pts.no_duplicates()
            &&& pts.len() == m
            &&& points_within(pts, w as int, h as int)
            &&& mine_layout(b, pts)
        }
}

fn contains_point(v: &Vec<Point>, p: &Point) -> (r: bool)
    ensures
        r == v@.contains(*p),
{
    let mut i: usize = 0;
    while i < v.len()
        invariant
            i <= v@.len(),
            forall|j: int| 0 <= j < i ==> v@[j] != *p,
        decreases v@.len() - i,
    {
        if v[i] == *p {
            assert(v@[i as int] == *p);
            return true;
        }
        i += 1;
    }
    false
}

/// Generates a fresh board: draws points from the injected source until
/// `mines` distinct ones are collected, then builds the grid with an
/// unrevealed mine at each selected point and an unrevealed blank
/// everywhere else.  Hints are not computed here; the result goes through
/// `numbers_on_board` next.
pub fn create_board<R: RandomSource>(
    width: usize,
    height: usize,
    mines: usize,
    rand: &mut R,
) -> (b: Board)
    requires
        0 < width <= i32::MAX,
        0 < height <= i32::MAX,
        mines < width * height,
        generation_completes(width, height, mines, *old(rand)),
    ensures
        b.wf(),
        b.width == width,
        b.height == height,
        b.mines == mines,
        mine_total(b) == mines,
        forall|x: int, y: int| b.in_bounds(x, y) ==> !(#[trigger] b.cell(x, y)).is_open(),
        generated_board(width, height, mines, *old(rand), b, *final(rand)),
{
    let ghost r_init: R = *rand;
    let ghost picked: (nat, Seq<Point>, R) = choose|fuel: nat, pts: Seq<Point>, r1: R|
        picks(width, height, mines, Seq::<Point>::empty(), r_init, fuel, pts, r1);
    let ghost ptsf: Seq<Point> = picked.1;
    let ghost rf: R = picked.2;
    let ghost mut remaining: nat = picked.0;
    let mut points: Vec<Point> = Vec::new();
    proof {
        assert(points@ =~= Seq::<Point>::empty());
    }
    while points.len() < mines
        invariant
            0 < width <= i32::MAX,
            0 < height <= i32::MAX,
            points@.len() <= mines,
            points@.no_duplicates(),
            points_within(points@, width as int, height as int),
            picks(width, height, mines, points@, *rand, remaining, ptsf, rf),
        decreases remaining,
    {
        let ghost r0: R = *rand;
        let x = rand.next(0, width);
        let ghost r1: R = *rand;
        let y = rand.next(0, height);
        let p = Point::new(x, y);
        let dup = contains_point(&points, &p);
        proof {
            assert(remaining > 0);
            let (xw, rxw, yw, ryw): (usize, R, usize, R) = choose|
                xw: usize,
                rxw: R,
                yw: usize,
                ryw: R,
            |
                #![trigger R::next_rel(r0, 0, width, xw, rxw), R::next_rel(rxw, 0, height, yw, ryw)]
                {
                    &&& R::next_rel(r0, 0, width, xw, rxw)
                    &&& R::next_rel(rxw, 0, height, yw, ryw)
                    &&& (if points@.contains(Point { x: xw as i32, y: yw as i32 }) {
                        picks(width, height, mines, points@, ryw, (remaining - 1) as nat, ptsf, rf)
                    } else {
                        picks(
                            width,
                            height,
                            mines,
                            points@.push(Point { x: xw as i32, y: yw as i32 }),
                            ryw,
                            (remaining - 1) as nat,
                            ptsf,
                            rf,
                        )
                    })
                };
            R::next_rel_deterministic(r0, 0, width, x, r1, xw, rxw);
            R::next_rel_deterministic(r1, 0, height, y, *rand, yw, ryw);
            assert(p == Point { x: xw as i32, y: yw as i32 });
            remaining = (remaining - 1) as nat;
        }
        if !dup {
            proof {
                let np = points@.push(p);
                assert forall|i: int, j: int|
                    0 <= i < np.len() && 0 <= j < np.len() && i != j implies np[i] != np[j] by {
                    if i < points@.len() && j < points@.len() {
                    } else if i < points@.len() {
                        if np[i] == p {
                            assert(points@[i] == p);
                            assert(points@.contains(p));
                        }
                    } else {
                        if np[j] == p {
                            assert(points@[j] == p);
                            assert(points@.contains(p));
                        }
                    }
                }
            }
            points.push(p);
        }
    }
    proof {
        assert(ptsf == points@ && rf == *rand);
        assert(generates(width, height, mines, r_init, points@, *rand)) by {
            assert(picks(
                width,
                height,
                mines,
                Seq::<Point>::empty(),
                r_init,
                picked.0,
                points@,
                *rand,
            ));
        }
    }
    let ghost pts: Seq<Point> = points@;
    let mut map: Vec<Vec<MapElement>> = Vec::new();
    let mut y: usize = 0;
    while y < height
        invariant
            0 < width <= i32::MAX,
            0 < height <= i32::MAX,
            points@ == pts,
            y <= height,
            map@.len() == y,
            forall|yy: int| 0 <= yy < y ==> (#[trigger] map@[yy])@.len() == width,
            forall|xx: int, yy: int|
                0 <= xx < width && 0 <= yy < y ==> #[trigger] map@[yy]@[xx] == (if pts.contains(
                    Point { x: xx as i32, y: yy as i32 },
                ) {
                    MapElement::Mine { open: false }
                } else {
                    MapElement::Empty { open: false }
                }),
        decreases height - y,
    {
        let mut row: Vec<MapElement> = Vec::new();
        let mut x: usize = 0;
        while x < width
            invariant
                0 < width <= i32::MAX,
                0 < height <= i32::MAX,
                points@ == pts,
                y < height,
                x <= width,
                row@.len() == x,
                forall|xx: int|
                    0 <= xx < x ==> #[trigger] row@[xx] == (if pts.contains(
                        Point { x: xx as i32, y: y as i32 },
                    ) {
                        MapElement::Mine { open: false }
                    } else {
                        MapElement::Empty { open: false }
                    }),
            decreases width - x,
        {
            let q = Point::new(x, y);
            let c = if contains_point(&points, &q) {
                MapElement::Mine { open: false }
            } else {
                MapElement::Empty { open: false }
            };
            row.push(c);
            x += 1;
        }
        map.push(row);
        y += 1;
    }
    let b = Board { map, width, height, mines };
    proof {
        assert(b.wf());
        assert(mine_layout(b, pts));
        lemma_mine_total_from_layout(b, pts);
        assert(generated_board(width, height, mines, r_init, b, *rand));
    }
    b
}

proof fn lemma_picks_functional<R: RandomSource>(
    w: usize,
    h: usize,
    m: usize,
    pts0: Seq<Point>,
    r0: R,
    f1: nat,
    pts1: Seq<Point>,
    r1: R,
    f2: nat,
    pts2: Seq<Point>,
    r2: R,
)
    requires
        picks(w, h, m, pts0, r0, f1, pts1, r1),
        picks(w, h, m, pts0, r0, f2, pts2, r2),
    ensures
        pts1 == pts2,
        r1 == r2,
    decreases f1,
{
    if pts0.len() >= m {
    } else {
        assert(f1 > 0 && f2 > 0);
        let (x1, rx1, y1, ry1): (usize, R, usize, R) = choose|
            x: usize,
            rx: R,
            y: usize,
            ry: R,
        |
            #![trigger R::next_rel(r0, 0, w, x, rx), R::next_rel(rx, 0, h, y, ry)]
            {
                &&& R::next_rel(r0, 0, w, x, rx)
                &&& R::next_rel(rx, 0, h, y, ry)
                &&& (if pts0.contains(Point { x: x as i32, y: y as i32 }) {
                    picks(w, h, m, pts0, ry, (f1 - 1) as nat, pts1, r1)
                } else {
                    picks(
                        w,
                        h,
                        m,
                        pts0.push(Point { x: x as i32, y: y as i32 }),
                        ry,
                        (f1 - 1) as nat,
                        pts1,
                        r1,
                    )
                })
            };
        let (x2, rx2, y2, ry2): (usize, R, usize, R) = choose|
            x: usize,
            rx: R,
            y: usize,
            ry: R,
        |
            #![trigger R::next_rel(r0, 0, w, x, rx), R::next_rel(rx, 0, h, y, ry)]
            {
                &&& R::next_rel(r0, 0, w, x, rx)
                &&& R::next_rel(rx, 0, h, y, ry)
                &&& (if pts0.contains(Point { x: x as i32, y: y as i32 }) {
                    picks(w, h, m, pts0, ry, (f2 - 1) as nat, pts2, r2)
                } else {
                    picks(
                        w,
                        h,
                        m,
                        pts0.push(Point { x: x as i32, y: y as i32 }),
                        ry,
                        (f2 - 1) as nat,
                        pts2,
                        r2,
                    )
                })
            };
        R::next_rel_deterministic(r0, 0, w, x1, rx1, x2, rx2);
        R::next_rel_deterministic(rx1, 0, h, y1, ry1, y2, ry2);
        let p = Point { x: x1 as i32, y: y1 as i32 };
        if pts0.contains(p) {
            lemma_picks_functional(w, h, m, pts0, ry1, (f1 - 1) as nat, pts1, r1, (f2 - 1) as nat, pts2, r2);
        } else {
            lemma_picks_functional(
                w,
                h,
                m,
                pts0.push(p),
                ry1,
                (f1 - 1) as nat,
                pts1,
                r1,
                (f2 - 1) as nat,
                pts2,
                r2,
            );
        }
    }
}

/// Mine selection is deterministic: from one initial source state, over
/// one set of dimensions and one mine count, the generator can select
/// only one point sequence and leave the source in only one final state.
pub proof fn lemma_generates_deterministic<R: RandomSource>(
    w: usize,
    h: usize,
    m: usize,
    r0: R,
    pts1: Seq<Point>,
    r1: R,
    pts2: Seq<Point>,
    r2: R,
)
    requires
        generates(w, h, m, r0, pts1, r1),
        generates(w, h, m, r0, pts2, r2),
    ensures
        pts1 == pts2,
        r1 == r2,
{
    let f1 = choose|fuel: nat| picks(w, h, m, Seq::<Point>::empty(), r0, fuel, pts1, r1);
    let f2 = choose|fuel: nat| picks(w, h, m, Seq::<Point>::empty(), r0, fuel, pts2, r2);
    lemma_picks_functional(w, h, m, Seq::<Point>::empty(), r0, f1, pts1, r1, f2, pts2, r2);
}

/// Board generation is reproducible: two boards generated over the same
/// dimensions and mine count from the same initial source state carry the
/// same cells everywhere and leave the source in the same state.
pub proof fn lemma_create_board_deterministic<R: RandomSource>(
    w: usize,
    h: usize,
    m: usize,
    r0: R,
    b1: Board,
    s1: R,
    b2: Board,
    s2: R,
)
    requires
        generated_board(w, h, m, r0, b1, s1),
        generated_board(w, h, m, r0, b2, s2),
    ensures
        s1 == s2,
        b1.width == b2.width,
        b1.height == b2.height,
        b1.mines == b2.mines,
        forall|x: int, y: int| b1.in_bounds(x, y) ==> #[trigger] b1.cell(x, y) == b2.cell(x, y),
{
    let pts1 = choose|pts: Seq<Point>|
        {
            &&& #[trigger] generates(w, h, m, r0, pts, s1)
            &&& pts.no_duplicates()
            &&& pts.len() == m
            &&& points_within(pts, w as int, h as int)
            &&& mine_layout(b1, pts)
        };
    let pts2 = choose|pts: Seq<Point>|
        {
            &&& #[trigger] generates(w, h, m, r0, pts, s2)
            &&& pts.no_duplicates()
            &&& pts.len() == m
            &&& points_within(pts, w as int, h as int)
            &&& mine_layout(b2, pts)
        };
    lemma_generates_deterministic(w, h, m, r0, pts1, s1, pts2, s2);
    assert forall|x: int, y: int| b1.in_bounds(x, y) implies #[trigger] b1.cell(x, y) == b2.cell(
        x,
        y,
    ) by {
        assert(b2.in_bounds(x, y));
    }
}

} // verus!
