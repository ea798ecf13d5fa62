//! Board-state engine for a minesweeper-style puzzle game.
//!
//! The library generates a rectangular grid with randomly placed mines,
//! derives numeric hints counting adjacent mines, and tracks which cells
//! have been revealed.  Every transformation is a pure function returning
//! a fresh board snapshot.

mod annotate;
mod board;
mod generate;
mod mines;
mod opening;
mod rand_source;

pub use annotate::adjacent_mines;
pub use annotate::annotated_cell;
pub use annotate::mine_at;
pub use annotate::mine_ind;
pub use annotate::numbers_on_board;
pub use annotate::unannotated;
pub use board::Board;
pub use board::MapElement;
pub use board::Point;
pub use board::surrounding_points;
pub use generate::create_board;
pub use generate::generated_board;
pub use generate::generates;
pub use generate::generation_completes;
pub use generate::lemma_create_board_deterministic;
pub use generate::lemma_generates_deterministic;
pub use generate::mine_layout;
pub use generate::picks;
pub use mines::grid_mines;
pub use mines::lemma_mine_total_from_layout;
pub use mines::mine_cell_ind;
pub use mines::mine_total;
pub use mines::points_within;
pub use mines::row_mines;
pub use mines::rows_of;
pub use opening::can_open;
pub use opening::lemma_reveal_only_once;
pub use opening::open_item;
pub use opening::opened_board;
pub use opening::revealed_cell;
pub use rand_source::FixedSource;
pub use rand_source::RandomSource;
pub use rand_source::clamped;
