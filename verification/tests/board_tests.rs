use tetris_core::board::{Block, Board, BOARD_WIDTH};
use tetris_core::tetromino::Cell;

fn cell(x: i32, y: i32) -> Cell {
    Cell { x, y }
}

fn block(x: i32, y: i32, color_index: usize) -> Block {
    Block { position: cell(x, y), color_index }
}

#[test]
fn blocked_outside_left_edge() {
    let board = Board::new();
    assert!(board.is_blocked(&vec![cell(-1, 0)]));
    assert!(board.is_blocked(&vec![cell(-1, 19)]));
}

#[test]
fn blocked_outside_right_edge() {
    let board = Board::new();
    assert!(board.is_blocked(&vec![cell(10, 0)]));
    assert!(board.is_blocked(&vec![cell(11, 5)]));
}

#[test]
fn blocked_below_bottom() {
    let board = Board::new();
    assert!(board.is_blocked(&vec![cell(0, 20)]));
    assert!(board.is_blocked(&vec![cell(9, 25)]));
}

#[test]
fn open_above_board() {
    // no upper bound check: cells above the visible board are legal
    let board = Board::new();
    assert!(!board.is_blocked(&vec![cell(0, -1)]));
    assert!(!board.is_blocked(&vec![cell(9, -5)]));
}

#[test]
fn out_of_bounds_blocked_with_any_locked_cells() {
    let mut board = Board::new();
    board.lock(&vec![cell(3, 10), cell(4, 10)], 2);
    assert!(board.is_blocked(&vec![cell(-1, 3)]));
    assert!(board.is_blocked(&vec![cell(10, 3)]));
    assert!(board.is_blocked(&vec![cell(5, 20)]));
}

#[test]
fn empty_board_open_inside() {
    let board = Board::new();
    assert!(!board.is_blocked(&vec![cell(0, 0), cell(9, 19), cell(4, 7)]));
}

#[test]
fn lock_then_blocked_same_cells() {
    let mut board = Board::new();
    let cells = vec![cell(4, 18), cell(5, 18), cell(4, 19), cell(5, 19)];
    board.lock(&cells, 3);
    for c in [cell(4, 18), cell(5, 18), cell(4, 19), cell(5, 19)] {
        assert!(board.is_blocked(&vec![c]));
    }
    assert!(board.is_blocked(&cells));
}

#[test]
fn lock_appends_blocks_in_order() {
    let mut board = Board::new();
    board.lock(&vec![cell(1, 2)], 0);
    board.lock(&vec![cell(3, 4), cell(5, 6)], 6);
    assert_eq!(
        board.blocks,
        vec![block(1, 2, 0), block(3, 4, 6), block(5, 6, 6)]
    );
}

#[test]
fn clear_no_full_rows_is_noop() {
    let mut board = Board::new();
    // row 19 is one cell short of full; other cells are scattered
    for x in 0..9 {
        board.blocks.push(block(x, 19, 1));
    }
    board.blocks.push(block(4, 3, 2));
    board.blocks.push(block(7, 11, 0));
    let before = board.blocks.clone();
    board.clear_full_rows();
    assert_eq!(board.blocks, before);
}

#[test]
fn clear_rows_five_and_seven() {
    let mut board = Board::new();
    // rows 5 and 7 full, nothing else full; survivors above, between, below
    for x in 0..10 {
        board.blocks.push(block(x, 5, 1));
        board.blocks.push(block(x, 7, 2));
    }
    board.blocks.push(block(0, 3, 4)); // above both full rows
    board.blocks.push(block(6, 6, 5)); // between them
    board.blocks.push(block(9, 10, 6)); // below both
    board.clear_full_rows();
    // the full rows' 20 cells are gone; the cell above both drops two rows,
    // the one between drops one, the one below stays
    assert_eq!(
        board.blocks,
        vec![block(0, 5, 4), block(6, 7, 5), block(9, 10, 6)]
    );
}

#[test]
fn completing_bottom_row_clears_exactly_one_row() {
    let mut board = Board::new();
    // row 19 full except one cell, injected directly; two strays above
    for x in 0..9 {
        board.blocks.push(block(x, 19, 0));
    }
    board.blocks.push(block(0, 17, 3));
    board.blocks.push(block(3, 18, 4));
    // one more locked cell completes the row
    board.lock(&vec![cell(9, 19)], 1);
    let before = board.blocks.len();
    board.clear_full_rows();
    assert_eq!(before - board.blocks.len(), BOARD_WIDTH as usize);
    // the two strays each drop one row
    assert_eq!(board.blocks, vec![block(0, 18, 3), block(3, 19, 4)]);
}

#[test]
fn clear_two_adjacent_full_rows() {
    let mut board = Board::new();
    for x in 0..10 {
        board.blocks.push(block(x, 18, 1));
        board.blocks.push(block(x, 19, 2));
    }
    board.blocks.push(block(5, 0, 3));
    board.clear_full_rows();
    assert_eq!(board.blocks, vec![block(5, 2, 3)]);
}

#[test]
fn has_block_at_finds_cells() {
    let mut board = Board::new();
    board.lock(&vec![cell(2, 9)], 5);
    assert!(board.has_block_at(2, 9));
    assert!(!board.has_block_at(2, 8));
    assert!(!board.has_block_at(3, 9));
}
