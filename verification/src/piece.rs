//! The piece controller: the active piece's shape, current relative cells
//! and board offset, with movement and rotation validated against the
//! board before they are committed.

use vstd::prelude::*;
use crate::tetromino::{Cell, TETROMINO_COUNT, shape_cells_spec, shape_cells,
    lemma_shape_cells_bounds};
use crate::board::{Board, Block, BOARD_WIDTH, BOARD_HEIGHT, any_blocked, cell_blocked,
    with_locked};

verus! {

/// The mathematical view of an active piece: its catalog index, its current
/// relative cells (which rotation mutates in place, so repeated rotations
/// compose), and its board offset.
#[verifier::ext_equal]
pub ghost struct PieceView {
    pub shape_index: int,
    pub cells: Seq<Cell>,
    pub origin_x: int,
    pub origin_y: int,
}

/// The active piece.  Rotation rewrites `cells`; movement rewrites
/// `origin`; `shape_index` selects the color and the respawn shape.
#[derive(Clone, Debug, PartialEq)]
pub struct Piece {
    pub shape_index: usize,
    pub cells: Vec<Cell>,
    pub origin: Cell,
}

impl View for Piece {
    type V = PieceView;

    open spec fn view(&self) -> PieceView {
        PieceView {
            shape_index: self.shape_index as int,
            cells: self.cells@,
            origin_x: self.origin.x as int,
            origin_y: self.origin.y as int,
        }
    }
}

/// Translates a relative cell by the piece's board offset.
pub open spec fn abs_map(ox: int, oy: int) -> spec_fn(Cell) -> Cell {
    |c: Cell| Cell { x: (ox + c.x) as i32, y: (oy + c.y) as i32 }
}

/// The four absolute cells of a piece: origin plus each relative cell.
pub open spec fn view_abs_cells(p: PieceView) -> Seq<Cell> {
    p.cells.map_values(abs_map(p.origin_x, p.origin_y))
}

/// A candidate placement is blocked: some relative cell, translated to the
/// offset (ox, oy), lands on a blocked board cell.
pub open spec fn placement_blocked(blocks: Seq<Block>, cells: Seq<Cell>, ox: int, oy: int) -> bool {
    exists|i: int|
        0 <= i < cells.len() && cell_blocked(
            blocks,
            ox + (#[trigger] cells[i]).x,
            oy + cells[i].y,
        )
}

/// Largest coordinate (x or y) over all the cells; 0 for an empty list.
/// The rotation pivot is derived from this bounding-box maximum.
pub open spec fn coords_max(cells: Seq<Cell>) -> int
    decreases cells.len(),
{
    if cells.len() == 0 {
        0
    } else {
        let m = coords_max(cells.drop_last());
        let c = cells.last();
        let cm = if c.x >= c.y {
            c.x as int
        } else {
            c.y as int
        };
        if cm >= m {
            cm
        } else {
            m
        }
    }
}

/// One clockwise quarter turn about the bounding-box pivot m:
/// (x, y) becomes (m - y, x).
pub open spec fn rot_cw(m: int) -> spec_fn(Cell) -> Cell {
    |c: Cell| Cell { x: (m - c.y) as i32, y: c.x }
}

/// One counter-clockwise quarter turn about the bounding-box pivot m:
/// (x, y) becomes (y, m - x).
pub open spec fn rot_ccw(m: int) -> spec_fn(Cell) -> Cell {
    |c: Cell| Cell { x: c.y, y: (m - c.x) as i32 }
}

/// The relative cells after one rotation: clockwise for dir > 0, else
/// counter-clockwise, both about the current bounding-box maximum.
pub open spec fn rotated_cells(cells: Seq<Cell>, dir: int) -> Seq<Cell> {
    let m = coords_max(cells);
    if dir > 0 {
        cells.map_values(rot_cw(m))
    } else {
        cells.map_values(rot_ccw(m))
    }
}

/// The piece after a horizontal move attempt: the origin shifts by delta
/// only when the candidate placement is unblocked.
pub open spec fn move_step(p: PieceView, blocks: Seq<Block>, delta: int) -> PieceView {
    if placement_blocked(blocks, p.cells, p.origin_x + delta, p.origin_y) {
        p
    } else {
        PieceView { origin_x: p.origin_x + delta, ..p }
    }
}

/// The piece after a downward move attempt: the origin drops one row only
/// when the candidate placement is unblocked.
pub open spec fn fall_step(p: PieceView, blocks: Seq<Block>) -> PieceView {
    if placement_blocked(blocks, p.cells, p.origin_x, p.origin_y + 1) {
        p
    } else {
        PieceView { origin_y: p.origin_y + 1, ..p }
    }
}

/// The piece after a rotation attempt: the rotated cells replace the
/// current ones only when their placement is unblocked.  dir == 0 is a
/// no-op.
pub open spec fn rotate_step(p: PieceView, blocks: Seq<Block>, dir: int) -> PieceView {
    if dir == 0 {
        p
    } else {
        let newcells = rotated_cells(p.cells, dir);
        if placement_blocked(blocks, newcells, p.origin_x, p.origin_y) {
            p
        } else {
            PieceView { cells: newcells, ..p }
        }
    }
}

/// A freshly spawned piece: the catalog cells of `index`, at origin (0, 0).
pub open spec fn spawned_view(index: int) -> PieceView {
    PieceView { shape_index: index, cells: shape_cells_spec(index), origin_x: 0, origin_y: 0 }
}

proof fn lemma_coords_max_ge(cells: Seq<Cell>, j: int)
    requires
        0 <= j < cells.len(),
    ensures
        coords_max(cells) >= cells[j].x && coords_max(cells) >= cells[j].y,
    decreases cells.len(),
{
    if j == cells.len() - 1 {
    } else {
        lemma_coords_max_ge(cells.drop_last(), j);
        assert(cells.drop_last()[j] == cells[j]);
    }
}

proof fn lemma_coords_max_le(cells: Seq<Cell>, m: int)
    requires
        m >= 0,
        forall|i: int| 0 <= i < cells.len() ==> (#[trigger] cells[i]).x <= m && cells[i].y <= m,
    ensures
        coords_max(cells) <= m,
    decreases cells.len(),
{
    if cells.len() > 0 {
        lemma_coords_max_le(cells.drop_last(), m);
    }
}

/// The bounding-box maximum is m exactly when every coordinate is at most m
/// and some coordinate attains it.
proof fn lemma_coords_max_is(cells: Seq<Cell>, m: int)
    requires
        m >= 0,
        forall|i: int| 0 <= i < cells.len() ==> (#[trigger] cells[i]).x <= m && cells[i].y <= m,
        exists|i: int|
            0 <= i < cells.len() && ((#[trigger] cells[i]).x == m || cells[i].y == m),
    ensures
        coords_max(cells) == m,
{
    lemma_coords_max_le(cells, m);
    let j = choose|i: int|
        0 <= i < cells.len() && ((#[trigger] cells[i]).x == m || cells[i].y == m);
    lemma_coords_max_ge(cells, j);
}

/// Translating relative cells and testing the board agrees with the
/// placement test on the untranslated cells, when the sums fit in i32.
proof fn lemma_abs_blocked_iff(blocks: Seq<Block>, cells: Seq<Cell>, ox: int, oy: int)
    requires
        forall|i: int|
            0 <= i < cells.len() ==> i32::MIN <= ox + (#[trigger] cells[i]).x <= i32::MAX
                && i32::MIN <= oy + cells[i].y <= i32::MAX,
    ensures
        any_blocked(blocks, cells.map_values(abs_map(ox, oy))) == placement_blocked(
            blocks,
            cells,
            ox,
            oy,
        ),
{
    let mapped = cells.map_values(abs_map(ox, oy));
    if any_blocked(blocks, mapped) {
        let i = choose|i: int|
            0 <= i < mapped.len() && cell_blocked(
                blocks,
                (#[trigger] mapped[i]).x as int,
                mapped[i].y as int,
            );
        assert(mapped[i] == abs_map(ox, oy)(cells[i]));
        assert(cell_blocked(blocks, ox + cells[i].x, oy + cells[i].y));
    }
    if placement_blocked(blocks, cells, ox, oy) {
        let i = choose|i: int|
            0 <= i < cells.len() && cell_blocked(
                blocks,
                ox + (#[trigger] cells[i]).x,
                oy + cells[i].y,
            );
        assert(mapped[i] == abs_map(ox, oy)(cells[i]));
        assert(cell_blocked(blocks, mapped[i].x as int, mapped[i].y as int));
        assert(any_blocked(blocks, mapped));
    }
}

/// Four quarter turns in the same direction about a fixed pivot m restore
/// the cells, provided every coordinate lies in [0, m], some cell has
/// x == m and some cell has x == 0.  Under those side conditions the pivot
/// recomputed before each turn stays m, so the four turns compose to the
/// identity.
pub proof fn lemma_rotate_four_identity(cells: Seq<Cell>, dir: int, m: int)
    requires
        cells.len() > 0,
        dir == 1 || dir == -1,
        forall|i: int|
            0 <= i < cells.len() ==> 0 <= (#[trigger] cells[i]).x <= m && 0 <= cells[i].y <= m,
        exists|i: int| 0 <= i < cells.len() && (#[trigger] cells[i]).x == m,
        exists|i: int| 0 <= i < cells.len() && (#[trigger] cells[i]).x == 0,
    ensures
        rotated_cells(rotated_cells(rotated_cells(rotated_cells(cells, dir), dir), dir), dir)
            == cells,
{
    let jm = choose|i: int| 0 <= i < cells.len() && (#[trigger] cells[i]).x == m;
    let j0 = choose|i: int| 0 <= i < cells.len() && (#[trigger] cells[i]).x == 0;
    assert(0 <= m <= i32::MAX as int);
    lemma_coords_max_is(cells, m);
    if dir == 1 {
        let s1 = rotated_cells(cells, 1);
        assert forall|i: int| 0 <= i < s1.len() implies #[trigger] s1[i] == (Cell {
            x: (m - cells[i].y) as i32,
            y: cells[i].x,
        }) && 0 <= s1[i].x <= m && 0 <= s1[i].y <= m by {
            assert(s1[i] == rot_cw(m)(cells[i]));
        }
        assert(s1[jm].y == m);
        lemma_coords_max_is(s1, m);
        let s2 = rotated_cells(s1, 1);
        assert forall|i: int| 0 <= i < s2.len() implies #[trigger] s2[i] == (Cell {
            x: (m - cells[i].x) as i32,
            y: (m - cells[i].y) as i32,
        }) && 0 <= s2[i].x <= m && 0 <= s2[i].y <= m by {
            assert(s2[i] == rot_cw(m)(s1[i]));
        }
        assert(s2[j0].x == m);
        lemma_coords_max_is(s2, m);
        let s3 = rotated_cells(s2, 1);
        assert forall|i: int| 0 <= i < s3.len() implies #[trigger] s3[i] == (Cell {
            x: cells[i].y,
            y: (m - cells[i].x) as i32,
        }) && 0 <= s3[i].x <= m && 0 <= s3[i].y <= m by {
            assert(s3[i] == rot_cw(m)(s2[i]));
        }
        assert(s3[j0].y == m);
        lemma_coords_max_is(s3, m);
        let s4 = rotated_cells(s3, 1);
        assert forall|i: int| 0 <= i < s4.len() implies #[trigger] s4[i] == cells[i] by {
            assert(s4[i] == rot_cw(m)(s3[i]));
        }
        assert(s4 =~= cells);
    } else {
        let s1 = rotated_cells(cells, -1);
        assert forall|i: int| 0 <= i < s1.len() implies #[trigger] s1[i] == (Cell {
            x: cells[i].y,
            y: (m - cells[i].x) as i32,
        }) && 0 <= s1[i].x <= m && 0 <= s1[i].y <= m by {
            assert(s1[i] == rot_ccw(m)(cells[i]));
        }
        assert(s1[j0].y == m);
        lemma_coords_max_is(s1, m);
        let s2 = rotated_cells(s1, -1);
        assert forall|i: int| 0 <= i < s2.len() implies #[trigger] s2[i] == (Cell {
            x: (m - cells[i].x) as i32,
            y: (m - cells[i].y) as i32,
        }) && 0 <= s2[i].x <= m && 0 <= s2[i].y <= m by {
            assert(s2[i] == rot_ccw(m)(s1[i]));
        }
        assert(s2[j0].x == m);
        lemma_coords_max_is(s2, m);
        let s3 = rotated_cells(s2, -1);
        assert forall|i: int| 0 <= i < s3.len() implies #[trigger] s3[i] == (Cell {
            x: (m - cells[i].y) as i32,
            y: cells[i].x,
        }) && 0 <= s3[i].x <= m && 0 <= s3[i].y <= m by {
            assert(s3[i] == rot_ccw(m)(s2[i]));
        }
        assert(s3[jm].y == m);
        lemma_coords_max_is(s3, m);
        let s4 = rotated_cells(s3, -1);
        assert forall|i: int| 0 <= i < s4.len() implies #[trigger] s4[i] == cells[i] by {
            assert(s4[i] == rot_ccw(m)(s3[i]));
        }
        assert(s4 =~= cells);
    }
}

/// Rotating any catalog shape four times in the same direction restores
/// its relative cells exactly, for either direction: the quarter turn
/// about the bounding-box pivot composes to the identity on each of the
/// seven shapes.
pub proof fn lemma_catalog_rotate_four_identity(index: int, dir: int)
    requires
        0 <= index < TETROMINO_COUNT as int,
        dir == 1 || dir == -1,
    ensures
        rotated_cells(
            rotated_cells(
                rotated_cells(rotated_cells(shape_cells_spec(index), dir), dir),
                dir,
            ),
            dir,
        ) == shape_cells_spec(index),
{
    lemma_shape_cells_bounds(index);
    let s = shape_cells_spec(index);
    if index == 0 {
        assert(s[3].x == 3);
        assert(s[0].x == 0);
        lemma_rotate_four_identity(s, dir, 3);
    } else if index == 3 {
        assert forall|i: int| 0 <= i < s.len() implies 0 <= (#[trigger] s[i]).x <= 1 && 0
            <= s[i].y <= 1 by {
            if i == 0 {
                assert(s[0] == Cell { x: 0, y: 0 });
            } else if i == 1 {
                assert(s[1] == Cell { x: 0, y: 1 });
            } else if i == 2 {
                assert(s[2] == Cell { x: 1, y: 1 });
            } else {
                assert(s[3] == Cell { x: 1, y: 0 });
            }
        }
        assert(s[2].x == 1);
        assert(s[0].x == 0);
        lemma_rotate_four_identity(s, dir, 1);
    } else {
        assert forall|i: int| 0 <= i < s.len() implies 0 <= (#[trigger] s[i]).x <= 2 && 0
            <= s[i].y <= 2 by {
            if i == 0 {
            } else if i == 1 {
            } else if i == 2 {
            } else {
                assert(i == 3);
            }
        }
        assert(s[3].x == 2);
        assert(s[0].x == 0);
        lemma_rotate_four_identity(s, dir, 2);
    }
}

impl Piece {
    /// The piece is well formed: a catalog shape index, exactly four
    /// relative cells inside the 4x4 box, and absolute cells inside the
    /// board horizontally and above its bottom.  Overlap with locked cells
    /// is not part of well-formedness: a respawn may overlap (there is no
    /// top-out rule).
    pub open spec fn wf(self) -> bool {
        &&& self.shape_index < TETROMINO_COUNT
        &&& self.cells@.len() == 4
        &&& forall|i: int|
            0 <= i < 4 ==> 0 <= (#[trigger] self.cells@[i]).x <= 3 && 0 <= self.cells@[i].y <= 3
        &&& 0 <= self.origin.y
        &&& forall|i: int|
            0 <= i < 4 ==> 0 <= self.origin.x + (#[trigger] self.cells@[i]).x < BOARD_WIDTH as int
                && self.origin.y + self.cells@[i].y < BOARD_HEIGHT as int
    }

    /// A fresh active piece: catalog shape `shape_index` at origin (0, 0).
    /// No collision check happens on spawn.
    pub fn spawn(shape_index: usize) -> (p: Piece)
        requires
            shape_index < TETROMINO_COUNT,
        ensures
            p@ == spawned_view(shape_index as int),
            p.wf(),
    {
        let cells = shape_cells(shape_index);
        let p = Piece { shape_index, cells, origin: Cell { x: 0, y: 0 } };
        proof {
            lemma_shape_cells_bounds(shape_index as int);
            assert(p@ =~= spawned_view(shape_index as int));
        }
        p
    }

    /// The piece's four absolute cells: origin plus each relative cell.
    pub fn absolute_cells(&self) -> (r: Vec<Cell>)
        requires
            self.wf(),
        ensures
            r@ == view_abs_cells(self@),
    {
        let ghost ox = self@.origin_x;
        let ghost oy = self@.origin_y;
        let mut r: Vec<Cell> = Vec::new();
        let mut i: usize = 0;
        while i < self.cells.len()
            invariant
                self.wf(),
                i <= 4,
                self.cells@.len() == 4,
                ox == self@.origin_x,
                oy == self@.origin_y,
                r@ == self.cells@.subrange(0, i as int).map_values(abs_map(ox, oy)),
            decreases self.cells@.len() - i,
        {
            let c = self.cells[i];
            r.push(Cell { x: self.origin.x + c.x, y: self.origin.y + c.y });
            proof {
                assert(r@ =~= self.cells@.subrange(0, i + 1).map_values(abs_map(ox, oy)));
            }
            i += 1;
        }
        proof {
            assert(self.cells@.subrange(0, 4) =~= self.cells@);
        }
        r
    }

    /// Attempts a horizontal move by `delta`: the new origin is committed
    /// only when every translated cell is unblocked; a blocked candidate
    /// leaves the piece exactly as it was.
    pub fn try_move_horizontal(&mut self, board: &Board, delta: i32)
        requires
            old(self).wf(),
            -1 <= delta <= 1,
        ensures
            final(self)@ == move_step(old(self)@, board@, delta as int),
            placement_blocked(
                board@,
                old(self)@.cells,
                old(self)@.origin_x + delta,
                old(self)@.origin_y,
            ) ==> *final(self) == *old(self),
            final(self).wf(),
    {
        let ghost ox = self@.origin_x + delta as int;
        let ghost oy = self@.origin_y;
        proof {
            assert(0 <= self.origin.x + self.cells@[0].x < BOARD_WIDTH as int);
        }
        let mut candidate: Vec<Cell> = Vec::new();
        let mut i: usize = 0;
        while i < self.cells.len()
            invariant
                self.wf(),
                i <= 4,
                self.cells@.len() == 4,
                -3 <= self.origin.x <= 9,
                -1 <= delta <= 1,
                ox == self@.origin_x + delta as int,
                oy == self@.origin_y,
                candidate@ == self.cells@.subrange(0, i as int).map_values(abs_map(ox, oy)),
            decreases self.cells@.len() - i,
        {
            let c = self.cells[i];
            candidate.push(Cell { x: self.origin.x + delta + c.x, y: self.origin.y + c.y });
            proof {
                assert(candidate@ =~= self.cells@.subrange(0, i + 1).map_values(abs_map(ox, oy)));
            }
            i += 1;
        }
        proof {
            assert(self.cells@.subrange(0, 4) =~= self.cells@);
            lemma_abs_blocked_iff(board@, self.cells@, ox, oy);
        }
        if !board.is_blocked(&candidate) {
            self.origin = Cell { x: self.origin.x + delta, y: self.origin.y };
        }
    }

    /// Attempts a downward move of one row; reports whether it moved.
    pub fn try_move_down(&mut self, board: &Board) -> (moved: bool)
        requires
            old(self).wf(),
        ensures
            final(self)@ == fall_step(old(self)@, board@),
            moved == !placement_blocked(
                board@,
                old(self)@.cells,
                old(self)@.origin_x,
                old(self)@.origin_y + 1,
            ),
            final(self).wf(),
    {
        let ghost ox = self@.origin_x;
        let ghost oy = self@.origin_y + 1;
        proof {
            assert(0 <= self.origin.x + self.cells@[0].x < BOARD_WIDTH as int);
            assert(self.origin.y + self.cells@[0].y < BOARD_HEIGHT as int);
        }
        let mut candidate: Vec<Cell> = Vec::new();
        let mut i: usize = 0;
        while i < self.cells.len()
            invariant
                self.wf(),
                i <= 4,
                self.cells@.len() == 4,
                -3 <= self.origin.x <= 9,
                0 <= self.origin.y <= 19,
                ox == self@.origin_x,
                oy == self@.origin_y + 1,
                candidate@ == self.cells@.subrange(0, i as int).map_values(abs_map(ox, oy)),
            decreases self.cells@.len() - i,
        {
            let c = self.cells[i];
            candidate.push(Cell { x: self.origin.x + c.x, y: self.origin.y + 1 + c.y });
            proof {
                assert(candidate@ =~= self.cells@.subrange(0, i + 1).map_values(abs_map(ox, oy)));
            }
            i += 1;
        }
        proof {
            assert(self.cells@.subrange(0, 4) =~= self.cells@);
            lemma_abs_blocked_iff(board@, self.cells@, ox, oy);
        }
        if !board.is_blocked(&candidate) {
            self.origin = Cell { x: self.origin.x, y: self.origin.y + 1 };
            true
        } else {
            false
        }
    }

    /// Attempts a rotation: clockwise for dir > 0, counter-clockwise for
    /// dir < 0, about the bounding-box pivot (the largest coordinate over
    /// the current cells).  The rotated cells replace the current ones only
    /// when their placement is unblocked; a blocked candidate leaves the
    /// piece exactly as it was.  There are no wall kicks.
    pub fn try_rotate(&mut self, board: &Board, dir: i32)
        requires
            old(self).wf(),
            dir != 0,
        ensures
            final(self)@ == rotate_step(old(self)@, board@, dir as int),
            placement_blocked(
                board@,
                rotated_cells(old(self)@.cells, dir as int),
                old(self)@.origin_x,
                old(self)@.origin_y,
            ) ==> *final(self) == *old(self),
            final(self).wf(),
    {
        proof {
            assert(0 <= self.origin.x + self.cells@[0].x < BOARD_WIDTH as int);
            assert(self.origin.y + self.cells@[0].y < BOARD_HEIGHT as int);
        }
        // the bounding-box pivot: the largest coordinate over the cells
        let mut mx: i32 = 0;
        let mut i: usize = 0;
        while i < self.cells.len()
            invariant
                self.wf(),
                i <= 4,
                self.cells@.len() == 4,
                0 <= mx <= 3,
                i == 0 ==> mx == 0,
                forall|j: int|
                    0 <= j < i ==> (#[trigger] self.cells@[j]).x <= mx && self.cells@[j].y <= mx,
                i > 0 ==> exists|j: int|
                    0 <= j < i && ((#[trigger] self.cells@[j]).x == mx || self.cells@[j].y == mx),
            decreases self.cells@.len() - i,
        {
            let c = self.cells[i];
            if c.x > mx {
                mx = c.x;
            }
            if c.y > mx {
                mx = c.y;
            }
            i += 1;
        }
        proof {
            lemma_coords_max_is(self.cells@, mx as int);
        }
        // the rotated relative cells
        let mut rotated: Vec<Cell> = Vec::new();
        i = 0;
        while i < self.cells.len()
            invariant
                self.wf(),
                i <= 4,
                self.cells@.len() == 4,
                0 <= mx <= 3,
                mx as int == coords_max(self.cells@),
                forall|j: int|
                    0 <= j < 4 ==> (#[trigger] self.cells@[j]).x <= mx && self.cells@[j].y <= mx,
                dir > 0 ==> rotated@ == self.cells@.subrange(0, i as int).map_values(
                    rot_cw(mx as int),
                ),
                dir <= 0 ==> rotated@ == self.cells@.subrange(0, i as int).map_values(
                    rot_ccw(mx as int),
                ),
            decreases self.cells@.len() - i,
        {
            let c = self.cells[i];
            let nc = if dir > 0 {
                Cell { x: mx - c.y, y: c.x }
            } else {
                Cell { x: c.y, y: mx - c.x }
            };
            rotated.push(nc);
            proof {
                if dir > 0 {
                    assert(rotated@ =~= self.cells@.subrange(0, i + 1).map_values(
                        rot_cw(mx as int),
                    ));
                } else {
                    assert(rotated@ =~= self.cells@.subrange(0, i + 1).map_values(
                        rot_ccw(mx as int),
                    ));
                }
            }
            i += 1;
        }
        proof {
            assert(self.cells@.subrange(0, 4) =~= self.cells@);
            assert(rotated@ == rotated_cells(self.cells@, dir as int));
            assert forall|j: int|
                0 <= j < 4 implies 0 <= (#[trigger] rotated@[j]).x <= 3 && 0 <= rotated@[j].y
                <= 3 by {
                if dir > 0 {
                    assert(rotated@[j] == rot_cw(mx as int)(self.cells@[j]));
                } else {
                    assert(rotated@[j] == rot_ccw(mx as int)(self.cells@[j]));
                }
            }
        }
        // the absolute candidate cells
        let ghost ox = self@.origin_x;
        let ghost oy = self@.origin_y;
        let mut candidate: Vec<Cell> = Vec::new();
        i = 0;
        while i < rotated.len()
            invariant
                self.wf(),
                i <= 4,
                rotated@.len() == 4,
                -3 <= self.origin.x <= 9,
                0 <= self.origin.y <= 19,
                forall|j: int|
                    0 <= j < 4 ==> 0 <= (#[trigger] rotated@[j]).x <= 3 && 0 <= rotated@[j].y
                        <= 3,
                ox == self@.origin_x,
                oy == self@.origin_y,
                candidate@ == rotated@.subrange(0, i as int).map_values(abs_map(ox, oy)),
            decreases rotated@.len() - i,
        {
            let c = rotated[i];
            candidate.push(Cell { x: self.origin.x + c.x, y: self.origin.y + c.y });
            proof {
                assert(candidate@ =~= rotated@.subrange(0, i + 1).map_values(abs_map(ox, oy)));
            }
            i += 1;
        }
        proof {
            assert(rotated@.subrange(0, 4) =~= rotated@);
            lemma_abs_blocked_iff(board@, rotated@, ox, oy);
        }
        if !board.is_blocked(&candidate) {
            self.cells = rotated;
        }
    }

    /// Locks the piece's absolute cells into the board with the piece's
    /// color identifier, then respawns as catalog shape `next_index` at the
    /// origin.  Row clearing is a separate step.
    pub fn commit_and_respawn(&mut self, board: &mut Board, next_index: usize)
        requires
            old(self).wf(),
            next_index < TETROMINO_COUNT,
        ensures
            final(board)@ == with_locked(
                old(board)@,
                view_abs_cells(old(self)@),
                old(self).shape_index,
            ),
            final(self)@ == spawned_view(next_index as int),
            final(self).wf(),
    {
        let abs = self.absolute_cells();
        board.lock(&abs, self.shape_index);
        *self = Piece::spawn(next_index);
    }
}

} // verus!
