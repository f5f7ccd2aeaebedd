//! The game state and the per-tick orchestration: the input latch, the
//! fixed-timestep simulation tick, the gravity driver, pause, and the
//! render list.

use vstd::prelude::*;
use crate::tetromino::TETROMINO_COUNT;
use crate::board::{Board, Block, cleared, with_locked};
use crate::piece::{Piece, PieceView, placement_blocked, view_abs_cells, move_step, rotate_step,
    fall_step, spawned_view};

verus! {

/// Gravity period, in milliseconds, while the soft drop is not held.
pub const SPEED_SLOW: u128 = 500;

/// Gravity period, in milliseconds, while the soft drop is held.
pub const SPEED_FAST: u128 = 100;

/// The input latch: the intents collected since the last simulation tick.
/// Direction and rotation are one-shot (consumed and reset by the tick);
/// the speed override carries the held state of the soft-drop key; pause is
/// edge-toggled.
#[derive(Clone, Copy, PartialEq, Eq, Debug)]
pub struct TetrisInputState {
    pub dir: i32,
    pub rotate: i32,
    pub speed: Option<bool>,
    pub is_paused: bool,
}

/// The neutral latch: no direction, no rotation, no speed override, not
/// paused.
pub open spec fn input_default() -> TetrisInputState {
    TetrisInputState { dir: 0, rotate: 0, speed: Option::None, is_paused: false }
}

impl Default for TetrisInputState {
    /// The neutral latch.
    fn default() -> (r: Self)
        ensures
            r == input_default(),
    {
        TetrisInputState { dir: 0, rotate: 0, speed: None, is_paused: false }
    }
}

/// A discrete input event, as the host's input adapter reports it.
#[derive(Clone, Copy, PartialEq, Eq, Structural, Debug)]
pub enum InputEvent {
    MoveLeft,
    MoveRight,
    RotateClockwise,
    RotateCounterClockwise,
    SpeedPressed,
    SpeedReleased,
    TogglePause,
}

/// The latch after one event: each event overwrites its own field and
/// leaves the rest alone; pause toggles.
pub open spec fn event_applied(input: TetrisInputState, event: InputEvent) -> TetrisInputState {
    match event {
        InputEvent::MoveLeft => TetrisInputState { dir: -1i32, ..input },
        InputEvent::MoveRight => TetrisInputState { dir: 1, ..input },
        InputEvent::RotateClockwise => TetrisInputState { rotate: 1, ..input },
        InputEvent::RotateCounterClockwise => TetrisInputState { rotate: -1i32, ..input },
        InputEvent::SpeedPressed => TetrisInputState { speed: Option::Some(true), ..input },
        InputEvent::SpeedReleased => TetrisInputState { speed: Option::Some(false), ..input },
        InputEvent::TogglePause => TetrisInputState { is_paused: !input.is_paused, ..input },
    }
}

/// The mathematical view of a whole game.
#[verifier::ext_equal]
pub ghost struct TetrisStateView {
    pub input: TetrisInputState,
    pub piece: PieceView,
    pub blocks: Seq<Block>,
    pub advance_interval: int,
    pub advance_timer: int,
}

/// The gravity period after the latched speed override is applied.
pub open spec fn speed_step(interval: int, speed: Option<bool>) -> int {
    match speed {
        Option::Some(fast) => if fast {
            SPEED_FAST as int
        } else {
            SPEED_SLOW as int
        },
        Option::None => interval,
    }
}

/// One simulation tick: the latched horizontal move, then the latched
/// rotation, then the latched speed override, and the latch resets.  The
/// board and the gravity timer are untouched.
pub open spec fn tick_step(s: TetrisStateView) -> TetrisStateView {
    let p1 = move_step(s.piece, s.blocks, s.input.dir as int);
    let p2 = rotate_step(p1, s.blocks, s.input.rotate as int);
    TetrisStateView {
        input: input_default(),
        piece: p2,
        blocks: s.blocks,
        advance_interval: speed_step(s.advance_interval, s.input.speed),
        advance_timer: s.advance_timer,
    }
}

/// n simulation ticks in a row.
pub open spec fn ticks_n(s: TetrisStateView, n: nat) -> TetrisStateView
    decreases n,
{
    if n == 0 {
        s
    } else {
        tick_step(ticks_n(s, (n - 1) as nat))
    }
}

/// The timer after draining: whole intervals are subtracted while the
/// timer still exceeds the interval.
pub open spec fn drained(t: int, interval: int) -> int
    decreases t,
{
    if interval <= 0 {
        t
    } else if t > interval {
        drained(t - interval, interval)
    } else {
        t
    }
}

/// The gravity pass of one frame: `elapsed` milliseconds accumulate; when
/// the timer exceeds the interval, a single drop-or-lock decision happens
/// (the piece falls one row, or it locks, a replacement spawns as catalog
/// shape `next_index`, and full rows clear), and the timer drains by whole
/// intervals.  However much time has passed, the decision happens at most
/// once.
pub open spec fn gravity_step(s: TetrisStateView, elapsed: int, next_index: int) -> TetrisStateView {
    let t = s.advance_timer + elapsed;
    if t <= s.advance_interval {
        TetrisStateView { advance_timer: t, ..s }
    } else {
        let t2 = drained(t, s.advance_interval);
        if !placement_blocked(s.blocks, s.piece.cells, s.piece.origin_x, s.piece.origin_y + 1) {
            TetrisStateView { piece: fall_step(s.piece, s.blocks), advance_timer: t2, ..s }
        } else {
            TetrisStateView {
                piece: spawned_view(next_index),
                blocks: cleared(
                    with_locked(s.blocks, view_abs_cells(s.piece), s.piece.shape_index as usize),
                ),
                advance_timer: t2,
                ..s
            }
        }
    }
}

/// One whole host frame: nothing at all happens while paused (time does
/// not accumulate); otherwise `ticks` simulation ticks run, then gravity.
pub open spec fn frame_step(s: TetrisStateView, ticks: nat, elapsed: int, next_index: int) -> TetrisStateView {
    if s.input.is_paused {
        s
    } else {
        gravity_step(ticks_n(s, ticks), elapsed, next_index)
    }
}

/// The render list: every locked cell, then the active piece's four
/// absolute cells with the piece's color identifier; empty while paused.
pub open spec fn render_list(s: TetrisStateView) -> Seq<Block> {
    if s.input.is_paused {
        Seq::empty()
    } else {
        with_locked(s.blocks, view_abs_cells(s.piece), s.piece.shape_index as usize)
    }
}

/// Relies on rand::random_range over `0..bound`: the result lies in
/// [0, bound), uniformly distributed; the call panics only on an empty
/// range, which the precondition rules out.
#[verifier::external_body]
fn draw_random_index(bound: usize) -> (r: usize)
    requires
        0 < bound,
    ensures
        r < bound,
{
    rand::random_range(0..bound)
}

/// The whole game: the settled board, the active piece, the input latch,
/// and the gravity timing.
#[derive(Debug)]
pub struct TetrisState {
    pub input: TetrisInputState,
    pub piece: Piece,
    pub board: Board,
    pub advance_interval: u128,
    pub advance_timer: u128,
}

impl View for TetrisState {
    type V = TetrisStateView;

    open spec fn view(&self) -> TetrisStateView {
        TetrisStateView {
            input: self.input,
            piece: self.piece@,
            blocks: self.board@,
            advance_interval: self.advance_interval as int,
            advance_timer: self.advance_timer as int,
        }
    }
}

impl TetrisState {
    /// The game is well formed: a well-formed active piece, a gravity
    /// period that is one of the two fixed constants, and latched
    /// direction and rotation in {-1, 0, 1}.
    pub open spec fn wf(self) -> bool {
        &&& self.piece.wf()
        &&& (self.advance_interval == SPEED_FAST || self.advance_interval == SPEED_SLOW)
        &&& -1 <= self.input.dir <= 1
        &&& -1 <= self.input.rotate <= 1
    }

    /// A fresh game: empty board, catalog shape `initial_index` spawned at
    /// the origin, slow gravity, timer at zero, neutral latch.
    pub fn new(initial_index: usize) -> (s: TetrisState)
        requires
            initial_index < TETROMINO_COUNT,
        ensures
            s.wf(),
            s@.blocks == Seq::<Block>::empty(),
            s@.piece == spawned_view(initial_index as int),
            s@.input == input_default(),
            s@.advance_interval == SPEED_SLOW as int,
            s@.advance_timer == 0,
    {
        TetrisState {
            input: TetrisInputState::default(),
            piece: Piece::spawn(initial_index),
            board: Board::new(),
            advance_interval: SPEED_SLOW,
            advance_timer: 0,
        }
    }

    /// A fresh game whose first shape is drawn from the process-wide
    /// random source.
    pub fn new_random() -> (s: TetrisState)
        ensures
            s.wf(),
            s@.blocks == Seq::<Block>::empty(),
            0 <= s@.piece.shape_index < TETROMINO_COUNT as int,
            s@.piece == spawned_view(s@.piece.shape_index),
            s@.input == input_default(),
            s@.advance_interval == SPEED_SLOW as int,
            s@.advance_timer == 0,
    {
        let idx = draw_random_index(TETROMINO_COUNT);
        TetrisState::new(idx)
    }

    /// Feeds one discrete input event into the latch.  Nothing but the
    /// latch changes.
    pub fn apply_event(&mut self, event: InputEvent)
        requires
            old(self).wf(),
        ensures
            final(self).wf(),
            final(self).input == event_applied(old(self).input, event),
            final(self).piece == old(self).piece,
            final(self).board == old(self).board,
            final(self).advance_interval == old(self).advance_interval,
            final(self).advance_timer == old(self).advance_timer,
    {
        match event {
            InputEvent::MoveLeft => {
                self.input.dir = -1;
            },
            InputEvent::MoveRight => {
                self.input.dir = 1;
            },
            InputEvent::RotateClockwise => {
                self.input.rotate = 1;
            },
            InputEvent::RotateCounterClockwise => {
                self.input.rotate = -1;
            },
            InputEvent::SpeedPressed => {
                self.input.speed = Some(true);
            },
            InputEvent::SpeedReleased => {
                self.input.speed = Some(false);
            },
            InputEvent::TogglePause => {
                self.input.is_paused = !self.input.is_paused;
            },
        }
    }

    /// One simulation tick: applies the latched horizontal move, then the
    /// latched rotation, then the latched speed override, and resets the
    /// latch.  Gravity is driven separately, once per real-time frame.
    pub fn tick(&mut self)
        requires
            old(self).wf(),
        ensures
            final(self)@ == tick_step(old(self)@),
            final(self).wf(),
    {
        let dir = self.input.dir;
        self.piece.try_move_horizontal(&self.board, dir);
        if self.input.rotate != 0 {
            let rot = self.input.rotate;
            self.piece.try_rotate(&self.board, rot);
        }
        match self.input.speed {
            Some(fast) => {
                self.advance_interval = if fast {
                    SPEED_FAST
                } else {
                    SPEED_SLOW
                };
            },
            None => {},
        }
        self.input = TetrisInputState::default();
        proof {
            assert(self@ =~= tick_step(old(self)@));
        }
    }

    /// The gravity pass of one frame: adds `elapsed` milliseconds to the
    /// timer; when the timer exceeds the interval, the piece drops one row
    /// or, if blocked below, locks, respawns as catalog shape `next_index`
    /// and the board clears its full rows; then the timer drains by whole
    /// intervals.  At most one drop-or-lock decision per call.
    pub fn advance_gravity(&mut self, elapsed: u128, next_index: usize)
        requires
            old(self).wf(),
            next_index < TETROMINO_COUNT,
            old(self)@.advance_timer + elapsed <= u128::MAX as int,
        ensures
            final(self)@ == gravity_step(old(self)@, elapsed as int, next_index as int),
            final(self).wf(),
    {
        self.advance_timer = self.advance_timer + elapsed;
        if self.advance_timer > self.advance_interval {
            let moved = self.piece.try_move_down(&self.board);
            if !moved {
                self.piece.commit_and_respawn(&mut self.board, next_index);
                self.board.clear_full_rows();
            }
            let ghost t0 = self.advance_timer as int;
            let ghost iv = self.advance_interval as int;
            let ghost gpiece = self.piece@;
            let ghost gblocks = self.board@;
            while self.advance_timer > self.advance_interval
                invariant
                    self.input == old(self).input,
                    self.piece@ == gpiece,
                    self.piece.wf(),
                    self.board@ == gblocks,
                    self.advance_interval == old(self).advance_interval,
                    self.advance_interval as int == iv,
                    drained(self.advance_timer as int, iv) == drained(t0, iv),
                    0 < iv,
                decreases self.advance_timer,
            {
                self.advance_timer = self.advance_timer - self.advance_interval;
            }
            proof {
                assert(self.advance_timer as int == drained(t0, iv));
                assert(self@ =~= gravity_step(old(self)@, elapsed as int, next_index as int));
            }
        }
    }

    /// One whole host frame while running: `ticks` fixed-step simulation
    /// ticks, then the gravity pass for `elapsed` milliseconds, with the
    /// replacement shape for a lock given by `next_index`.  While paused,
    /// nothing happens and time does not accumulate.
    pub fn update_frame(&mut self, ticks: usize, elapsed: u128, next_index: usize)
        requires
            old(self).wf(),
            next_index < TETROMINO_COUNT,
            old(self)@.advance_timer + elapsed <= u128::MAX as int,
        ensures
            final(self)@ == frame_step(
                old(self)@,
                ticks as nat,
                elapsed as int,
                next_index as int,
            ),
            final(self).wf(),
    {
        if self.input.is_paused {
            return ;
        }
        let mut i: usize = 0;
        while i < ticks
            invariant
                i <= ticks,
                self.wf(),
                self@ == ticks_n(old(self)@, i as nat),
                self.advance_timer == old(self).advance_timer,
            decreases ticks - i,
        {
            self.tick();
            i += 1;
        }
        self.advance_gravity(elapsed, next_index);
    }

    /// One whole host frame, with the replacement shape drawn from the
    /// process-wide random source.
    pub fn update(&mut self, ticks: usize, elapsed: u128)
        requires
            old(self).wf(),
            old(self)@.advance_timer + elapsed <= u128::MAX as int,
        ensures
            final(self).wf(),
            exists|next_index: int|
                0 <= next_index < TETROMINO_COUNT as int && final(self)@ == frame_step(
                    old(self)@,
                    ticks as nat,
                    elapsed as int,
                    next_index,
                ),
    {
        let idx = draw_random_index(TETROMINO_COUNT);
        self.update_frame(ticks, elapsed, idx);
        proof {
            assert((idx as int) < (TETROMINO_COUNT as int) && self@ == frame_step(
                old(self)@,
                ticks as nat,
                elapsed as int,
                idx as int,
            ));
        }
    }

    /// The render list for this frame: every locked cell, then the active
    /// piece's four absolute cells, each with its color identifier.  Empty
    /// while paused; the host draws nothing then.
    pub fn render_blocks(&self) -> (r: Vec<Block>)
        requires
            self.wf(),
        ensures
            r@ == render_list(self@),
    {
        let mut r: Vec<Block> = Vec::new();
        if self.input.is_paused {
            proof {
                assert(r@ =~= render_list(self@));
            }
            return r;
        }
        let mut i: usize = 0;
        while i < self.board.blocks.len()
            invariant
                i <= self.board@.len(),
                self.wf(),
                !self@.input.is_paused,
                r@ == self.board@.subrange(0, i as int),
            decreases self.board@.len() - i,
        {
            r.push(self.board.blocks[i]);
            proof {
                assert(r@ =~= self.board@.subrange(0, i + 1));
            }
            i += 1;
        }
        proof {
            assert(self.board@.subrange(0, self.board@.len() as int) =~= self.board@);
        }
        let abs = self.piece.absolute_cells();
        let color = self.piece.shape_index;
        let mut j: usize = 0;
        while j < abs.len()
            invariant
                j <= abs@.len(),
                abs@ == view_abs_cells(self@.piece),
                color == self.piece.shape_index,
                r@ == self.board@ + abs@.subrange(0, j as int).map_values(
                    crate::board::colored(color),
                ),
            decreases abs@.len() - j,
        {
            let c = abs[j];
            r.push(Block { position: c, color_index: color });
            proof {
                assert(r@ =~= self.board@ + abs@.subrange(0, j + 1).map_values(
                    crate::board::colored(color),
                ));
            }
            j += 1;
        }
        proof {
            assert(abs@.subrange(0, abs@.len() as int) =~= abs@);
            assert(r@ =~= render_list(self@));
        }
        r
    }
}

} // verus!
