use tetris_core::board::Board;
use tetris_core::piece::Piece;
use tetris_core::tetromino::{shape_cells, tetromino, Cell, TETROMINO_COUNT};

fn cell(x: i32, y: i32) -> Cell {
    Cell { x, y }
}

#[test]
fn spawn_matches_catalog() {
    for index in 0..TETROMINO_COUNT {
        let p = Piece::spawn(index);
        assert_eq!(p.shape_index, index);
        assert_eq!(p.cells, shape_cells(index));
        assert_eq!(p.origin, cell(0, 0));
    }
}

#[test]
fn catalog_entries_carry_their_index_as_color() {
    for index in 0..TETROMINO_COUNT {
        let t = tetromino(index);
        assert_eq!(t.color_index, index);
        assert_eq!(t.block_positions, shape_cells(index));
        assert_eq!(t.block_positions.len(), 4);
    }
}

#[test]
fn catalog_shapes_are_the_seven_tetrominoes() {
    // I, J, L, O, S, T, Z in catalog order
    assert_eq!(shape_cells(0), vec![cell(0, 1), cell(1, 1), cell(2, 1), cell(3, 1)]);
    assert_eq!(shape_cells(1), vec![cell(0, 0), cell(0, 1), cell(1, 1), cell(2, 1)]);
    assert_eq!(shape_cells(2), vec![cell(0, 1), cell(1, 1), cell(2, 1), cell(2, 0)]);
    assert_eq!(shape_cells(3), vec![cell(0, 0), cell(0, 1), cell(1, 1), cell(1, 0)]);
    assert_eq!(shape_cells(4), vec![cell(0, 1), cell(1, 1), cell(1, 0), cell(2, 0)]);
    assert_eq!(shape_cells(5), vec![cell(0, 1), cell(1, 1), cell(1, 0), cell(2, 1)]);
    assert_eq!(shape_cells(6), vec![cell(0, 0), cell(1, 0), cell(1, 1), cell(2, 1)]);
}

#[test]
fn rotate_clockwise_once() {
    // the I piece: (0,1),(1,1),(2,1),(3,1); pivot 3; (x,y) -> (3-y, x)
    let board = Board::new();
    let mut p = Piece::spawn(0);
    p.try_rotate(&board, 1);
    assert_eq!(p.cells, vec![cell(2, 0), cell(2, 1), cell(2, 2), cell(2, 3)]);
}

#[test]
fn rotate_counter_clockwise_once() {
    // the I piece; pivot 3; (x,y) -> (y, 3-x)
    let board = Board::new();
    let mut p = Piece::spawn(0);
    p.try_rotate(&board, -1);
    assert_eq!(p.cells, vec![cell(1, 3), cell(1, 2), cell(1, 1), cell(1, 0)]);
}

#[test]
fn rotate_four_times_clockwise_is_identity() {
    for index in 0..TETROMINO_COUNT {
        let board = Board::new();
        let mut p = Piece::spawn(index);
        let original = p.cells.clone();
        for _ in 0..4 {
            p.try_rotate(&board, 1);
        }
        assert_eq!(p.cells, original);
    }
}

#[test]
fn rotate_four_times_counter_clockwise_is_identity() {
    for index in 0..TETROMINO_COUNT {
        let board = Board::new();
        let mut p = Piece::spawn(index);
        let original = p.cells.clone();
        for _ in 0..4 {
            p.try_rotate(&board, -1);
        }
        assert_eq!(p.cells, original);
    }
}

#[test]
fn blocked_move_leaves_piece_unchanged() {
    // the J piece has a cell at x = 0: a move left from the spawn origin
    // would cross the left edge
    let board = Board::new();
    let mut p = Piece::spawn(1);
    let before = p.clone();
    p.try_move_horizontal(&board, -1);
    assert_eq!(p, before);
}

#[test]
fn blocked_rotate_leaves_piece_unchanged() {
    // the I piece would rotate onto (2,0),(2,1),(2,2),(2,3); a locked cell
    // at (2,3) blocks it
    let mut board = Board::new();
    board.lock(&vec![cell(2, 3)], 0);
    let mut p = Piece::spawn(0);
    let before = p.clone();
    p.try_rotate(&board, 1);
    assert_eq!(p, before);
}

#[test]
fn move_right_stops_at_the_wall() {
    // the O shape spans x in {0, 1}: eight moves right reach origin x = 8,
    // the ninth would place a cell at x = 10 and is rejected
    let board = Board::new();
    let mut p = Piece::spawn(3);
    for _ in 0..8 {
        p.try_move_horizontal(&board, 1);
    }
    assert_eq!(p.origin.x, 8);
    let before = p.clone();
    p.try_move_horizontal(&board, 1);
    assert_eq!(p, before);
    assert_eq!(p.origin.x, 8);
}

#[test]
fn move_down_stops_at_the_bottom() {
    // the O shape spans y in {0, 1}: eighteen drops reach origin y = 18,
    // the nineteenth would place a cell at y = 20 and is rejected
    let board = Board::new();
    let mut p = Piece::spawn(3);
    for step in 0..18 {
        assert!(p.try_move_down(&board));
        assert_eq!(p.origin.y, step + 1);
    }
    assert!(!p.try_move_down(&board));
    assert_eq!(p.origin.y, 18);
}

#[test]
fn absolute_cells_translate_by_origin() {
    let board = Board::new();
    let mut p = Piece::spawn(3);
    p.try_move_horizontal(&board, 1);
    p.try_move_down(&board);
    assert_eq!(
        p.absolute_cells(),
        vec![cell(1, 1), cell(1, 2), cell(2, 2), cell(2, 1)]
    );
}

#[test]
fn commit_and_respawn_locks_and_restarts() {
    let mut board = Board::new();
    let mut p = Piece::spawn(3);
    p.try_move_down(&board);
    p.commit_and_respawn(&mut board, 5);
    assert_eq!(board.blocks.len(), 4);
    for b in &board.blocks {
        assert_eq!(b.color_index, 3);
    }
    assert!(board.has_block_at(0, 1));
    assert!(board.has_block_at(0, 2));
    assert!(board.has_block_at(1, 2));
    assert!(board.has_block_at(1, 1));
    assert_eq!(p.shape_index, 5);
    assert_eq!(p.cells, shape_cells(5));
    assert_eq!(p.origin, cell(0, 0));
}
