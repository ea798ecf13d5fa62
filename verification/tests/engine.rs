use minesweeper::Board;
use minesweeper::FixedSource;
use minesweeper::MapElement;
use minesweeper::Point;
use minesweeper::create_board;
use minesweeper::numbers_on_board;
use minesweeper::open_item;
use minesweeper::surrounding_points;

#[test]
fn test_create_board() {
    let width = 5;
    let height = 4;
    let mines = 4;
    let mut rand = FixedSource::new(vec![3, 3, 2, 2, 1, 1, 0, 0]);
    let board = create_board(width, height, mines, &mut rand);
    let expected_map = vec![
        vec![
            MapElement::Mine { open: false },
            MapElement::Empty { open: false },
            MapElement::Empty { open: false },
            MapElement::Empty { open: false },
            MapElement::Empty { open: false },
        ],
        vec![
            MapElement::Empty { open: false },
            MapElement::Mine { open: false },
            MapElement::Empty { open: false },
            MapElement::Empty { open: false },
            MapElement::Empty { open: false },
        ],
        vec![
            MapElement::Empty { open: false },
            MapElement::Empty { open: false },
            MapElement::Mine { open: false },
            MapElement::Empty { open: false },
            MapElement::Empty { open: false },
        ],
        vec![
            MapElement::Empty { open: false },
            MapElement::Empty { open: false },
            MapElement::Empty { open: false },
            MapElement::Mine { open: false },
            MapElement::Empty { open: false },
        ],
    ];
    assert_eq!(board.map, expected_map);
}

#[test]
fn test_create_board_without_repeated_mines() {
    let width = 5;
    let height = 4;
    let mines = 4;
    let mut rand = FixedSource::new(vec![3, 3, 2, 2, 0, 0, 1, 1, 0, 0]);
    let board = create_board(width, height, mines, &mut rand);
    let expected_map = vec![
        vec![
            MapElement::Mine { open: false },
            MapElement::Empty { open: false },
            MapElement::Empty { open: false },
            MapElement::Empty { open: false },
            MapElement::Empty { open: false },
        ],
        vec![
            MapElement::Empty { open: false },
            MapElement::Mine { open: false },
            MapElement::Empty { open: false },
            MapElement::Empty { open: false },
            MapElement::Empty { open: false },
        ],
        vec![
            MapElement::Empty { open: false },
            MapElement::Empty { open: false },
            MapElement::Mine { open: false },
            MapElement::Empty { open: false },
            MapElement::Empty { open: false },
        ],
        vec![
            MapElement::Empty { open: false },
            MapElement::Empty { open: false },
            MapElement::Empty { open: false },
            MapElement::Mine { open: false },
            MapElement::Empty { open: false },
        ],
    ];
    assert_eq!(board.map, expected_map);
}

#[test]
fn test_numbers_on_board() {
    let board = Board {
        height: 4,
        width: 5,
        mines: 4,
        map: vec![
            vec![
                MapElement::Mine { open: false },
                MapElement::Empty { open: false },
                MapElement::Empty { open: false },
                MapElement::Empty { open: false },
                MapElement::Empty { open: false },
            ],
            vec![
                MapElement::Empty { open: false },
                MapElement::Mine { open: false },
                MapElement::Empty { open: false },
                MapElement::Empty { open: false },
                MapElement::Empty { open: false },
            ],
            vec![
                MapElement::Empty { open: false },
                MapElement::Empty { open: false },
                MapElement::Mine { open: false },
                MapElement::Empty { open: false },
                MapElement::Empty { open: false },
            ],
            vec![
                MapElement::Empty { open: false },
                MapElement::Empty { open: false },
                MapElement::Empty { open: false },
                MapElement::Mine { open: false },
                MapElement::Empty { open: false },
            ],
        ],
    };
    let board_with_numbers = numbers_on_board(board);
    let expected_map = vec![
        vec![
            MapElement::Mine { open: false },
            MapElement::Number { open: false, count: 2 },
            MapElement::Number { open: false, count: 1 },
            MapElement::Empty { open: false },
            MapElement::Empty { open: false },
        ],
        vec![
            MapElement::Number { open: false, count: 2 },
            MapElement::Mine { open: false },
            MapElement::Number { open: false, count: 2 },
            MapElement::Number { open: false, count: 1 },
            MapElement::Empty { open: false },
        ],
        vec![
            MapElement::Number { open: false, count: 1 },
            MapElement::Number { open: false, count: 2 },
            MapElement::Mine { open: false },
            MapElement::Number { open: false, count: 2 },
            MapElement::Number { open: false, count: 1 },
        ],
        vec![
            MapElement::Empty { open: false },
            MapElement::Number { open: false, count: 1 },
            MapElement::Number { open: false, count: 2 },
            MapElement::Mine { open: false },
            MapElement::Number { open: false, count: 1 },
        ],
    ];
    assert_eq!(board_with_numbers.map, expected_map);
}

#[test]
fn test_surrounding_points() {
    assert_eq!(
        surrounding_points(&Point { x: 1, y: 10 }),
        vec![
            Point { x: 0, y: 9 },
            Point { x: 0, y: 10 },
            Point { x: 0, y: 11 },
            Point { x: 1, y: 9 },
            Point { x: 1, y: 11 },
            Point { x: 2, y: 9 },
            Point { x: 2, y: 10 },
            Point { x: 2, y: 11 }
        ]
    );
}

#[test]
fn test_open_item() {
    let board = Board {
        height: 2,
        width: 5,
        mines: 4,
        map: vec![
            vec![
                MapElement::Mine { open: false },
                MapElement::Empty { open: false },
                MapElement::Empty { open: false },
                MapElement::Empty { open: false },
                MapElement::Empty { open: false },
            ],
            vec![
                MapElement::Empty { open: false },
                MapElement::Mine { open: false },
                MapElement::Empty { open: false },
                MapElement::Empty { open: false },
                MapElement::Empty { open: false },
            ],
        ],
    };
    let board = numbers_on_board(board);
    let board = open_item(board, Point::new(1, 0));
    let expected_map = vec![
        vec![
            MapElement::Mine { open: false },
            MapElement::Number { count: 2, open: true },
            MapElement::Number { count: 1, open: false },
            MapElement::Empty { open: false },
            MapElement::Empty { open: false },
        ],
        vec![
            MapElement::Number { count: 2, open: false },
            MapElement::Mine { open: false },
            MapElement::Number { count: 1, open: false },
            MapElement::Empty { open: false },
            MapElement::Empty { open: false },
        ],
    ];
    assert_eq!(board.map, expected_map);
}
