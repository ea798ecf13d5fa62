use minesweeper::Board;
use minesweeper::FixedSource;
use minesweeper::MapElement;
use minesweeper::Point;
use minesweeper::create_board;
use minesweeper::numbers_on_board;
use minesweeper::open_item;

fn mine_count(board: &Board) -> usize {
    board
        .map
        .iter()
        .flatten()
        .filter(|c| matches!(c, MapElement::Mine { .. }))
        .count()
}

fn open_count(board: &Board) -> usize {
    board
        .map
        .iter()
        .flatten()
        .filter(|c| {
            matches!(
                c,
                MapElement::Mine { open: true }
                    | MapElement::Empty { open: true }
                    | MapElement::Number { open: true, .. }
            )
        })
        .count()
}

#[test]
fn generated_board_has_dimensions_mine_count_and_no_reveals() {
    let mut rand = FixedSource::new(vec![3, 3, 2, 2, 1, 1, 0, 0]);
    let board = create_board(5, 4, 4, &mut rand);
    assert_eq!(board.width, 5);
    assert_eq!(board.height, 4);
    assert_eq!(board.mines, 4);
    assert_eq!(board.map.len(), 4);
    assert!(board.map.iter().all(|row| row.len() == 5));
    assert_eq!(mine_count(&board), 4);
    assert_eq!(open_count(&board), 0);
}

#[test]
fn generation_is_reproducible_for_equal_sources() {
    let values = vec![0, 2, 3, 1, 1, 1, 0, 0];
    let mut rand_a = FixedSource::new(values.clone());
    let mut rand_b = FixedSource::new(values);
    let board_a = create_board(4, 3, 4, &mut rand_a);
    let board_b = create_board(4, 3, 4, &mut rand_b);
    assert_eq!(board_a.map, board_b.map);
    assert_eq!(rand_a.used, rand_b.used);
}

#[test]
fn out_of_range_draws_fall_back_to_the_range_low_end() {
    // the y draw of 7 lies outside [0, 2) and is taken as 0
    let mut rand = FixedSource::new(vec![7, 1]);
    let board = create_board(2, 2, 1, &mut rand);
    assert_eq!(
        board.map,
        vec![
            vec![MapElement::Empty { open: false }, MapElement::Mine { open: false }],
            vec![MapElement::Empty { open: false }, MapElement::Empty { open: false }],
        ]
    );
}

#[test]
fn at_is_absent_exactly_outside_the_grid() {
    let board = Board {
        height: 2,
        width: 3,
        mines: 0,
        map: vec![
            vec![
                MapElement::Empty { open: false },
                MapElement::Empty { open: false },
                MapElement::Empty { open: false },
            ],
            vec![
                MapElement::Empty { open: false },
                MapElement::Empty { open: false },
                MapElement::Empty { open: false },
            ],
        ],
    };
    assert_eq!(board.at(&Point { x: -1, y: 0 }), None);
    assert_eq!(board.at(&Point { x: 0, y: -1 }), None);
    assert_eq!(board.at(&Point { x: 3, y: 0 }), None);
    assert_eq!(board.at(&Point { x: 0, y: 2 }), None);
    assert_eq!(
        board.at(&Point { x: 2, y: 1 }),
        Some(MapElement::Empty { open: false })
    );
}

#[test]
fn annotating_a_single_cell_board_keeps_it_blank() {
    let mut rand = FixedSource::new(vec![]);
    let board = create_board(1, 1, 0, &mut rand);
    let board = numbers_on_board(board);
    assert_eq!(board.map, vec![vec![MapElement::Empty { open: false }]]);
}

#[test]
fn revealing_flips_exactly_one_cell() {
    let board = Board {
        height: 2,
        width: 2,
        mines: 1,
        map: vec![
            vec![MapElement::Mine { open: false }, MapElement::Number { open: false, count: 1 }],
            vec![
                MapElement::Number { open: false, count: 1 },
                MapElement::Number { open: false, count: 1 },
            ],
        ],
    };
    let opened = open_item(board, Point::new(0, 1));
    assert_eq!(open_count(&opened), 1);
    assert_eq!(
        opened.map[1][0],
        MapElement::Number { open: true, count: 1 }
    );
    assert_eq!(opened.map[0][0], MapElement::Mine { open: false });
    assert_eq!(opened.map[0][1], MapElement::Number { open: false, count: 1 });
    assert_eq!(opened.map[1][1], MapElement::Number { open: false, count: 1 });
}

#[test]
fn replace_rebuilds_only_the_target_cell() {
    let board = Board {
        height: 2,
        width: 2,
        mines: 0,
        map: vec![
            vec![MapElement::Empty { open: false }, MapElement::Empty { open: false }],
            vec![MapElement::Empty { open: false }, MapElement::Empty { open: false }],
        ],
    };
    let replaced = board.replace(&Point { x: 1, y: 1 }, MapElement::Mine { open: false });
    assert_eq!(replaced.map[1][1], MapElement::Mine { open: false });
    assert_eq!(replaced.map[0][0], MapElement::Empty { open: false });
    assert_eq!(replaced.map[0][1], MapElement::Empty { open: false });
    assert_eq!(replaced.map[1][0], MapElement::Empty { open: false });
    assert_eq!(board.map[1][1], MapElement::Empty { open: false });
}
