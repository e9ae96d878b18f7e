use tictactoe::Board;
use tictactoe::CellValue;

fn non_empty_cells(b: &Board) -> usize {
    let mut n = 0;
    for x in 0..3 {
        for y in 0..3 {
            if !b.cells[x][y].is_empty() {
                n += 1;
            }
        }
    }
    n
}

#[test]
fn new_game_has_one_machine_mark() {
    for r in [0usize, 1, 4, 8, 9, 13, 1000] {
        let b = Board::new_game(r);
        assert_eq!(non_empty_cells(&b), 1);
        assert_eq!(b.move_count, 1);
        assert_eq!(b.current_player, CellValue::X);
        assert_eq!(b.winner, CellValue::Empty);
        assert!(!b.is_finished());
        let mut machine_marks = 0;
        for x in 0..3 {
            for y in 0..3 {
                if b.cells[x][y] == CellValue::O {
                    machine_marks += 1;
                }
            }
        }
        assert_eq!(machine_marks, 1);
    }
}

#[test]
fn new_game_fallback_is_the_indexed_free_cell() {
    // On an empty board the policy has nothing to win or block, so the
    // draw picks the cell with row-major index r % 9.
    let b = Board::new_game(5);
    assert_eq!(b.cells[1][2], CellValue::O);
    let b = Board::new_game(13);
    assert_eq!(b.cells[1][1], CellValue::O);
    let b = Board::new_game(0);
    assert_eq!(b.cells[0][0], CellValue::O);
}

#[test]
fn human_completes_row_and_wins() {
    // X holds (0,0) and (0,1) with (0,2) free and the turn: playing
    // (0,2) must succeed, set the winner, and end the game.
    let mut b = Board::empty();
    assert_eq!(b.play(1, 0, CellValue::O), Ok(()));
    assert_eq!(b.play(0, 0, CellValue::X), Ok(()));
    assert_eq!(b.play(2, 2, CellValue::O), Ok(()));
    assert_eq!(b.play(0, 1, CellValue::X), Ok(()));
    assert_eq!(b.play(1, 1, CellValue::O), Ok(()));
    assert_eq!(b.current_player, CellValue::X);
    assert_eq!(b.play(0, 2, CellValue::X), Ok(()));
    assert_eq!(b.winner, CellValue::X);
    assert_eq!(b.current_player, CellValue::Empty);
    assert!(b.is_finished());
}

#[test]
fn ai_blocks_imminent_loss() {
    // X holds (1,0) and (1,1) with (1,2) free, O to move with no win of
    // its own available: every random draw must pick the block (1,2).
    for r in 0..6usize {
        let mut b = Board::empty();
        assert_eq!(b.play(0, 0, CellValue::O), Ok(()));
        assert_eq!(b.play(1, 0, CellValue::X), Ok(()));
        assert_eq!(b.play(2, 2, CellValue::O), Ok(()));
        assert_eq!(b.play(1, 1, CellValue::X), Ok(()));
        assert_eq!(b.current_player, CellValue::O);
        b.ai_play(r);
        assert_eq!(b.cells[1][2], CellValue::O);
        assert_eq!(b.move_count, 5);
    }
}

#[test]
fn ai_takes_its_own_win_first() {
    // O holds (0,0) and (0,1) with (0,2) free; X threatens (1,2) at the
    // same time, but the policy prefers the immediate win.
    for r in 0..6usize {
        let mut b = Board::empty();
        assert_eq!(b.play(0, 0, CellValue::O), Ok(()));
        assert_eq!(b.play(1, 0, CellValue::X), Ok(()));
        assert_eq!(b.play(0, 1, CellValue::O), Ok(()));
        assert_eq!(b.play(1, 1, CellValue::X), Ok(()));
        b.ai_play(r);
        assert_eq!(b.cells[0][2], CellValue::O);
        assert_eq!(b.winner, CellValue::O);
        assert!(b.is_finished());
    }
}

#[test]
fn ai_random_fallback_plays_indexed_cell() {
    let mut b = Board::empty();
    b.ai_play(5);
    assert_eq!(b.cells[1][2], CellValue::O);
    assert_eq!(b.move_count, 1);
    assert_eq!(b.current_player, CellValue::X);
}

#[test]
fn ai_never_plays_occupied_and_increments() {
    for r in [0usize, 2, 5, 7, 11] {
        let mut b = Board::new_game(r);
        let before = b.cells;
        let count = b.move_count;
        b.ai_play(r + 3);
        assert_eq!(b.move_count, count + 1);
        let mut changed = 0;
        for x in 0..3 {
            for y in 0..3 {
                if b.cells[x][y] != before[x][y] {
                    assert_eq!(before[x][y], CellValue::Empty);
                    changed += 1;
                }
            }
        }
        assert_eq!(changed, 1);
    }
}

#[test]
fn ai_play_on_finished_game_is_a_noop() {
    let mut b = Board::empty();
    assert_eq!(b.play(0, 0, CellValue::O), Ok(()));
    assert_eq!(b.play(1, 0, CellValue::X), Ok(()));
    assert_eq!(b.play(0, 1, CellValue::O), Ok(()));
    assert_eq!(b.play(1, 1, CellValue::X), Ok(()));
    assert_eq!(b.play(0, 2, CellValue::O), Ok(()));
    assert!(b.is_finished());
    let cells = b.cells;
    let count = b.move_count;
    b.ai_play(4);
    assert_eq!(b.cells, cells);
    assert_eq!(b.move_count, count);
    assert_eq!(b.winner, CellValue::O);
}

#[test]
fn full_board_without_line_is_a_draw() {
    // Final position, row by row: O X O / O O X / X O X — no line.
    let mut b = Board::empty();
    let moves = [
        (0, 0, CellValue::O),
        (0, 1, CellValue::X),
        (0, 2, CellValue::O),
        (1, 2, CellValue::X),
        (1, 0, CellValue::O),
        (2, 0, CellValue::X),
        (1, 1, CellValue::O),
        (2, 2, CellValue::X),
    ];
    for &(x, y, p) in moves.iter() {
        assert_eq!(b.play(x, y, p), Ok(()));
        assert!(!b.is_finished());
        assert_eq!(b.winner, CellValue::Empty);
    }
    assert_eq!(b.play(2, 1, CellValue::O), Ok(()));
    assert_eq!(b.move_count, 9);
    assert!(b.is_finished());
    assert_eq!(b.winner, CellValue::Empty);
    assert_eq!(b.current_player, CellValue::Empty);
}
