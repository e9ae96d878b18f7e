//! A verified tic-tac-toe engine: board state, move legality, win
//! detection, and a greedy one-ply opponent policy. Rendering and input
//! handling are left to the host; randomness for the opponent's fallback
//! move is injected by the caller.

mod board;

pub use board::Board;
pub use board::CellValue;
pub use board::PlayError;
pub use board::cell_at;
pub use board::occupied;
pub use board::lemma_moves_counted;
pub use board::lemma_win_is_terminal;
pub use board::lemma_marks_are_permanent;
pub use board::lemma_full_no_line_is_draw;
