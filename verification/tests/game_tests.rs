use tetris_core::board::Block;
use tetris_core::game::{InputEvent, TetrisInputState, TetrisState, SPEED_FAST, SPEED_SLOW};
use tetris_core::tetromino::{shape_cells, Cell, TETROMINO_COUNT};

fn cell(x: i32, y: i32) -> Cell {
    Cell { x, y }
}

#[test]
fn default_input_is_neutral() {
    let input = TetrisInputState::default();
    assert_eq!(input.dir, 0);
    assert_eq!(input.rotate, 0);
    assert_eq!(input.speed, None);
    assert!(!input.is_paused);
}

#[test]
fn new_game_starts_slow_and_empty() {
    let s = TetrisState::new(2);
    assert_eq!(s.board.blocks.len(), 0);
    assert_eq!(s.piece.shape_index, 2);
    assert_eq!(s.piece.cells, shape_cells(2));
    assert_eq!(s.piece.origin, cell(0, 0));
    assert_eq!(s.advance_interval, SPEED_SLOW);
    assert_eq!(s.advance_timer, 0);
    assert_eq!(s.input, TetrisInputState::default());
}

#[test]
fn new_random_draws_a_catalog_shape() {
    // would fail if the random draw handed back the bound itself
    for _ in 0..50 {
        let s = TetrisState::new_random();
        assert!(s.piece.shape_index < TETROMINO_COUNT);
        assert_eq!(s.piece.cells, shape_cells(s.piece.shape_index));
    }
}

#[test]
fn apply_event_sets_the_latch() {
    let mut s = TetrisState::new(0);
    s.apply_event(InputEvent::MoveLeft);
    assert_eq!(s.input.dir, -1);
    s.apply_event(InputEvent::MoveRight);
    assert_eq!(s.input.dir, 1);
    s.apply_event(InputEvent::RotateClockwise);
    assert_eq!(s.input.rotate, 1);
    s.apply_event(InputEvent::RotateCounterClockwise);
    assert_eq!(s.input.rotate, -1);
    s.apply_event(InputEvent::SpeedPressed);
    assert_eq!(s.input.speed, Some(true));
    s.apply_event(InputEvent::SpeedReleased);
    assert_eq!(s.input.speed, Some(false));
    s.apply_event(InputEvent::TogglePause);
    assert!(s.input.is_paused);
    s.apply_event(InputEvent::TogglePause);
    assert!(!s.input.is_paused);
}

#[test]
fn tick_consumes_direction_once() {
    let mut s = TetrisState::new(3);
    s.apply_event(InputEvent::MoveRight);
    s.tick();
    assert_eq!(s.piece.origin.x, 1);
    assert_eq!(s.input, TetrisInputState::default());
    s.tick();
    assert_eq!(s.piece.origin.x, 1);
}

#[test]
fn tick_applies_rotation() {
    let mut s = TetrisState::new(0);
    s.apply_event(InputEvent::RotateClockwise);
    s.tick();
    assert_eq!(s.piece.cells, vec![cell(2, 0), cell(2, 1), cell(2, 2), cell(2, 3)]);
    assert_eq!(s.input.rotate, 0);
}

#[test]
fn tick_applies_speed_override() {
    let mut s = TetrisState::new(4);
    s.apply_event(InputEvent::SpeedPressed);
    s.tick();
    assert_eq!(s.advance_interval, SPEED_FAST);
    assert_eq!(s.input.speed, None);
    s.apply_event(InputEvent::SpeedReleased);
    s.tick();
    assert_eq!(s.advance_interval, SPEED_SLOW);
}

#[test]
fn paused_frame_does_nothing() {
    let mut s = TetrisState::new(3);
    s.apply_event(InputEvent::TogglePause);
    s.update_frame(3, 10_000, 0);
    assert_eq!(s.advance_timer, 0);
    assert_eq!(s.piece.origin, cell(0, 0));
    assert!(s.input.is_paused);
    assert_eq!(s.render_blocks(), vec![]);
}

#[test]
fn gravity_accumulates_below_the_interval() {
    let mut s = TetrisState::new(3);
    s.update_frame(0, 400, 0);
    assert_eq!(s.advance_timer, 400);
    assert_eq!(s.piece.origin, cell(0, 0));
}

#[test]
fn gravity_drops_once_and_drains_the_timer() {
    // 1300 ms at the slow interval: one single drop, then the timer drains
    // 1300 -> 800 -> 300
    let mut s = TetrisState::new(3);
    s.update_frame(0, 1300, 0);
    assert_eq!(s.piece.origin, cell(0, 1));
    assert_eq!(s.advance_timer, 300);
}

#[test]
fn gravity_locks_at_the_bottom_and_respawns() {
    let mut s = TetrisState::new(3);
    for _ in 0..18 {
        s.update_frame(0, 501, 6);
    }
    assert_eq!(s.piece.origin, cell(0, 18));
    assert_eq!(s.board.blocks.len(), 0);
    s.update_frame(0, 501, 6);
    // the O piece locked at the bottom left; the replacement spawned
    assert_eq!(s.board.blocks.len(), 4);
    for b in &s.board.blocks {
        assert_eq!(b.color_index, 3);
    }
    assert!(s.board.has_block_at(0, 18));
    assert!(s.board.has_block_at(0, 19));
    assert!(s.board.has_block_at(1, 19));
    assert!(s.board.has_block_at(1, 18));
    assert_eq!(s.piece.shape_index, 6);
    assert_eq!(s.piece.cells, shape_cells(6));
    assert_eq!(s.piece.origin, cell(0, 0));
}

#[test]
fn render_list_holds_board_then_piece() {
    let mut s = TetrisState::new(5);
    s.board.blocks.push(Block { position: cell(9, 19), color_index: 1 });
    let list = s.render_blocks();
    assert_eq!(list.len(), 5);
    assert_eq!(list[0], Block { position: cell(9, 19), color_index: 1 });
    let piece_cells = vec![cell(0, 1), cell(1, 1), cell(1, 0), cell(2, 1)];
    for (i, c) in piece_cells.into_iter().enumerate() {
        assert_eq!(list[1 + i], Block { position: c, color_index: 5 });
    }
}

#[test]
fn update_with_random_replacement_advances_time() {
    let mut s = TetrisState::new(1);
    if s.advance_timer <= u128::MAX - 100 {
        s.update(0, 100);
    }
    assert_eq!(s.advance_timer, 100);
}
