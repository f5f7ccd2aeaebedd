//! The board model: the list of settled (locked) cells, collision queries,
//! and row clearing.

use vstd::prelude::*;
use crate::tetromino::Cell;

verus! {

/// Number of columns of the visible board.
pub const BOARD_WIDTH: i32 = 10;

/// Number of rows of the visible board.  Row 0 is the top row; y grows
/// downward.  The grid is logically infinite upward: cells with y < 0 are
/// legal and simply lie above the visible area.
pub const BOARD_HEIGHT: i32 = 20;

/// A locked cell: an absolute position plus the color identifier of the
/// shape it came from.
#[derive(Clone, Copy, PartialEq, Eq, Structural, Debug)]
pub struct Block {
    pub position: Cell,
    pub color_index: usize,
}

/// The board: the unordered list of locked cells.  Membership is decided by
/// scanning the list.
#[derive(Debug)]
pub struct Board {
    pub blocks: Vec<Block>,
}

impl View for Board {
    type V = Seq<Block>;

    open spec fn view(&self) -> Seq<Block> {
        self.blocks@
    }
}

/// Some locked cell sits at (x, y).
pub open spec fn occupied(blocks: Seq<Block>, x: int, y: int) -> bool {
    exists|i: int|
        0 <= i < blocks.len() && (#[trigger] blocks[i]).position.x == x && blocks[i].position.y
            == y
}

/// A single absolute cell is blocked: off the left or right edge, below the
/// board bottom, or coinciding with a locked cell.  There is no upper bound
/// check; pieces may extend above the visible board.
pub open spec fn cell_blocked(blocks: Seq<Block>, x: int, y: int) -> bool {
    x < 0 || x >= BOARD_WIDTH as int || y >= BOARD_HEIGHT as int || occupied(blocks, x, y)
}

/// Some cell of the list is blocked.
pub open spec fn any_blocked(blocks: Seq<Block>, cells: Seq<Cell>) -> bool {
    exists|i: int|
        0 <= i < cells.len() && cell_blocked(
            blocks,
            (#[trigger] cells[i]).x as int,
            cells[i].y as int,
        )
}

/// Turns a cell into a locked cell of the given color.
pub open spec fn colored(color_index: usize) -> spec_fn(Cell) -> Block {
    |c: Cell| Block { position: c, color_index }
}

/// The board contents after locking `cells` with color `color_index`: each
/// cell is appended, in order, as a new locked cell.
pub open spec fn with_locked(blocks: Seq<Block>, cells: Seq<Cell>, color_index: usize) -> Seq<
    Block,
> {
    blocks + cells.map_values(colored(color_index))
}

/// Row y is full: every column in [0, BOARD_WIDTH) holds a locked cell at y.
pub open spec fn row_full(blocks: Seq<Block>, y: int) -> bool {
    forall|x: int| 0 <= x < BOARD_WIDTH as int ==> occupied(blocks, x, y)
}

/// A clearing pass removes block `b`: it lies in a full row of the visible
/// board.
pub open spec fn removed(blocks: Seq<Block>, b: Block) -> bool {
    0 <= b.position.y < BOARD_HEIGHT as int && row_full(blocks, b.position.y as int)
}

/// Number of full rows r with lo <= r < hi and r > y.
pub open spec fn count_full_gt(blocks: Seq<Block>, lo: int, hi: int, y: int) -> int
    decreases hi - lo,
{
    if lo >= hi {
        0
    } else {
        count_full_gt(blocks, lo, hi - 1, y) + if hi - 1 > y && row_full(blocks, hi - 1) {
            1int
        } else {
            0int
        }
    }
}

/// How far a surviving cell in row y drops: the number of full rows of the
/// visible board whose index is greater than y (rows below it on screen).
pub open spec fn shift_for(blocks: Seq<Block>, y: int) -> int {
    count_full_gt(blocks, 0, BOARD_HEIGHT as int, y)
}

/// Block `b` after a clearing pass of `blocks`: shifted down by the full
/// rows that lay below it.
pub open spec fn shifted_block(blocks: Seq<Block>, b: Block) -> Block {
    Block {
        position: Cell {
            x: b.position.x,
            y: (b.position.y + shift_for(blocks, b.position.y as int)) as i32,
        },
        color_index: b.color_index,
    }
}

/// The survivors of a clearing pass of `blocks`.
pub open spec fn keep_pred(blocks: Seq<Block>) -> spec_fn(Block) -> bool {
    |b: Block| !removed(blocks, b)
}

/// The shift a clearing pass of `blocks` applies to each survivor.
pub open spec fn shift_map(blocks: Seq<Block>) -> spec_fn(Block) -> Block {
    |b: Block| shifted_block(blocks, b)
}

/// The board contents after one clearing pass: every cell of a full row is
/// dropped, and each survivor moves down past the full rows that were below
/// it.
pub open spec fn cleared(blocks: Seq<Block>) -> Seq<Block> {
    blocks.filter(keep_pred(blocks)).map_values(shift_map(blocks))
}

/// The prefix of a clearing pass: only the first k blocks processed.
spec fn partial_clear(blocks: Seq<Block>, k: int) -> Seq<Block> {
    blocks.subrange(0, k).filter(keep_pred(blocks)).map_values(shift_map(blocks))
}

proof fn lemma_partial_clear_step(blocks: Seq<Block>, k: int)
    requires
        0 <= k < blocks.len(),
    ensures
        partial_clear(blocks, k + 1) == if removed(blocks, blocks[k]) {
            partial_clear(blocks, k)
        } else {
            partial_clear(blocks, k).push(shifted_block(blocks, blocks[k]))
        },
{
    reveal(Seq::filter);
    let s = blocks.subrange(0, k);
    let s1 = blocks.subrange(0, k + 1);
    assert(s1.drop_last() =~= s);
    assert(s1.last() == blocks[k]);
    let fs = s.filter(keep_pred(blocks));
    let fs1 = s1.filter(keep_pred(blocks));
    if removed(blocks, blocks[k]) {
        assert(fs1 == fs);
    } else {
        assert(fs1 == fs.push(blocks[k]));
        assert(fs1.map_values(shift_map(blocks)) =~= fs.map_values(shift_map(blocks)).push(
            shifted_block(blocks, blocks[k]),
        ));
    }
}

/// Whatever the locked cells are, a cell off the left or right edge or
/// below the bottom is blocked.
pub proof fn lemma_out_of_bounds_blocked(blocks: Seq<Block>, x: int, y: int)
    requires
        x < 0 || x >= BOARD_WIDTH as int || y >= BOARD_HEIGHT as int,
    ensures
        cell_blocked(blocks, x, y),
{
}

/// After locking a list of cells, each of those same cells is blocked:
/// collision with oneself is immediate.
pub proof fn lemma_locked_cells_blocked(blocks: Seq<Block>, cells: Seq<Cell>, color_index: usize)
    ensures
        forall|i: int|
            0 <= i < cells.len() ==> cell_blocked(
                with_locked(blocks, cells, color_index),
                (#[trigger] cells[i]).x as int,
                cells[i].y as int,
            ),
{
    let after = with_locked(blocks, cells, color_index);
    assert forall|i: int|
        0 <= i < cells.len() implies cell_blocked(
        after,
        (#[trigger] cells[i]).x as int,
        cells[i].y as int,
    ) by {
        let j = blocks.len() + i;
        assert(after[j] == colored(color_index)(cells[i]));
        assert(occupied(after, cells[i].x as int, cells[i].y as int));
    }
}

proof fn lemma_filter_all_true(s: Seq<Block>, p: spec_fn(Block) -> bool)
    requires
        forall|i: int| 0 <= i < s.len() ==> p(#[trigger] s[i]),
    ensures
        s.filter(p) == s,
    decreases s.len(),
{
    reveal(Seq::filter);
    if s.len() == 0 {
        assert(s.filter(p) =~= s);
    } else {
        lemma_filter_all_true(s.drop_last(), p);
        assert(p(s.last()));
        assert(s.filter(p) =~= s);
    }
}

/// Every element a filter keeps satisfies its predicate.
proof fn lemma_filter_elements(s: Seq<Block>, p: spec_fn(Block) -> bool)
    ensures
        s.filter(p).len() <= s.len(),
        forall|i: int| 0 <= i < s.filter(p).len() ==> p(#[trigger] s.filter(p)[i]),
    decreases s.len(),
{
    reveal(Seq::filter);
    let out = s.filter(p);
    if s.len() > 0 {
        lemma_filter_elements(s.drop_last(), p);
        let sub = s.drop_last().filter(p);
        assert forall|i: int| 0 <= i < out.len() implies p(#[trigger] out[i]) by {
            if i < sub.len() {
                assert(out[i] == sub[i]);
            }
        }
    }
}

proof fn lemma_count_full_gt_zero(blocks: Seq<Block>, hi: int, y: int)
    requires
        0 <= hi <= BOARD_HEIGHT as int,
        forall|r: int| 0 <= r < BOARD_HEIGHT as int ==> !row_full(blocks, r),
    ensures
        count_full_gt(blocks, 0, hi, y) == 0,
    decreases hi,
{
    if hi > 0 {
        lemma_count_full_gt_zero(blocks, hi - 1, y);
    }
}

/// A clearing pass of a board with no full rows is a no-op: no cell is
/// removed and no cell shifts.
pub proof fn lemma_clear_no_full_rows(blocks: Seq<Block>)
    requires
        forall|y: int| 0 <= y < BOARD_HEIGHT as int ==> !row_full(blocks, y),
    ensures
        cleared(blocks) == blocks,
{
    assert forall|i: int| 0 <= i < blocks.len() implies keep_pred(blocks)(#[trigger] blocks[i]) by {
        assert(!removed(blocks, blocks[i]));
    }
    lemma_filter_all_true(blocks, keep_pred(blocks));
    assert forall|i: int| 0 <= i < blocks.len() implies #[trigger] cleared(blocks)[i]
        == blocks[i] by {
        lemma_count_full_gt_zero(blocks, BOARD_HEIGHT as int, blocks[i].position.y as int);
        assert(shifted_block(blocks, blocks[i]) == blocks[i]);
    }
    assert(cleared(blocks) =~= blocks);
}

proof fn lemma_count_full_gt_two(blocks: Seq<Block>, hi: int, y: int)
    requires
        0 <= hi <= BOARD_HEIGHT as int,
        row_full(blocks, 5),
        row_full(blocks, 7),
        forall|r: int| 0 <= r < BOARD_HEIGHT as int && r != 5 && r != 7 ==> !row_full(blocks, r),
    ensures
        count_full_gt(blocks, 0, hi, y) == (if 5 < hi && 5 > y {
            1int
        } else {
            0int
        }) + (if 7 < hi && 7 > y {
            1int
        } else {
            0int
        }),
    decreases hi,
{
    if hi > 0 {
        lemma_count_full_gt_two(blocks, hi - 1, y);
    }
}

/// A clearing pass of a board whose only full rows are 5 and 7 (with y = 0
/// the top row and y growing downward): the cells of rows 5 and 7 are gone;
/// every survivor above row 5 (y < 5) drops by two rows, every survivor
/// between the two rows (5 < y < 7) drops by one, and every survivor below
/// row 7 stays where it was.
pub proof fn lemma_clear_rows_five_and_seven(blocks: Seq<Block>)
    requires
        row_full(blocks, 5),
        row_full(blocks, 7),
        forall|y: int| 0 <= y < BOARD_HEIGHT as int && y != 5 && y != 7 ==> !row_full(blocks, y),
    ensures
        ({
            let kept = blocks.filter(keep_pred(blocks));
            &&& forall|i: int|
                0 <= i < kept.len() ==> (#[trigger] kept[i]).position.y != 5
                    && kept[i].position.y != 7
            &&& cleared(blocks).len() == kept.len()
            &&& forall|i: int|
                0 <= i < kept.len() ==> #[trigger] cleared(blocks)[i] == Block {
                    position: Cell {
                        x: kept[i].position.x,
                        y: (kept[i].position.y + (if kept[i].position.y < 5 {
                            2int
                        } else if kept[i].position.y < 7 {
                            1int
                        } else {
                            0int
                        })) as i32,
                    },
                    color_index: kept[i].color_index,
                }
        }),
{
    let kept = blocks.filter(keep_pred(blocks));
    lemma_filter_elements(blocks, keep_pred(blocks));
    assert forall|i: int| 0 <= i < kept.len() implies (#[trigger] kept[i]).position.y != 5
        && kept[i].position.y != 7 by {
        assert(keep_pred(blocks)(kept[i]));
    }
    assert forall|i: int| 0 <= i < kept.len() implies #[trigger] cleared(blocks)[i] == Block {
        position: Cell {
            x: kept[i].position.x,
            y: (kept[i].position.y + (if kept[i].position.y < 5 {
                2int
            } else if kept[i].position.y < 7 {
                1int
            } else {
                0int
            })) as i32,
        },
        color_index: kept[i].color_index,
    } by {
        assert(keep_pred(blocks)(kept[i]));
        lemma_count_full_gt_two(blocks, BOARD_HEIGHT as int, kept[i].position.y as int);
    }
}

impl Board {
    /// An empty board.
    pub fn new() -> (b: Board)
        ensures
            b@ == Seq::<Block>::empty(),
    {
        Board { blocks: Vec::new() }
    }

    /// True iff a locked cell sits at (x, y).
    pub fn has_block_at(&self, x: i32, y: i32) -> (r: bool)
        ensures
            r == occupied(self@, x as int, y as int),
    {
        let mut i: usize = 0;
        while i < self.blocks.len()
            invariant
                i <= self.blocks@.len(),
                forall|j: int|
                    0 <= j < i ==> !((#[trigger] self.blocks@[j]).position.x == x
                        && self.blocks@[j].position.y == y),
            decreases self.blocks@.len() - i,
        {
            let b = self.blocks[i];
            if b.position.x == x && b.position.y == y {
                return true;
            }
            i += 1;
        }
        false
    }

    /// True iff any of the absolute cells is blocked: off the left or right
    /// edge, below the bottom, or on a locked cell.
    pub fn is_blocked(&self, cells: &Vec<Cell>) -> (r: bool)
        ensures
            r == any_blocked(self@, cells@),
    {
        let mut i: usize = 0;
        while i < cells.len()
            invariant
                i <= cells@.len(),
                forall|j: int|
                    0 <= j < i ==> !cell_blocked(
                        self@,
                        (#[trigger] cells@[j]).x as int,
                        cells@[j].y as int,
                    ),
            decreases cells@.len() - i,
        {
            let c = cells[i];
            if c.x < 0 || c.x >= BOARD_WIDTH || c.y >= BOARD_HEIGHT {
                return true;
            }
            if self.has_block_at(c.x, c.y) {
                return true;
            }
            i += 1;
        }
        false
    }

    /// Appends each cell as a new locked cell of the given color.  Performs
    /// no validation: the caller must already have checked for collisions.
    pub fn lock(&mut self, cells: &Vec<Cell>, color_index: usize)
        ensures
            final(self)@ == with_locked(old(self)@, cells@, color_index),
    {
        let ghost orig = self.blocks@;
        let mut i: usize = 0;
        while i < cells.len()
            invariant
                i <= cells@.len(),
                self.blocks@ == orig + cells@.subrange(0, i as int).map_values(
                    colored(color_index),
                ),
            decreases cells@.len() - i,
        {
            let c = cells[i];
            self.blocks.push(Block { position: c, color_index });
            proof {
                assert(cells@.subrange(0, i + 1).map_values(colored(color_index)) =~= cells@
                    .subrange(0, i as int).map_values(colored(color_index)).push(
                    Block { position: cells@[i as int], color_index },
                ));
                assert(self.blocks@ =~= orig + cells@.subrange(0, i + 1).map_values(
                    colored(color_index),
                ));
            }
            i += 1;
        }
        proof {
            assert(cells@.subrange(0, cells@.len() as int) =~= cells@);
        }
    }

    /// True iff row y is full.
    pub fn is_row_full(&self, y: i32) -> (r: bool)
        ensures
            r == row_full(self@, y as int),
    {
        let mut x: i32 = 0;
        while x < BOARD_WIDTH
            invariant
                0 <= x <= BOARD_WIDTH,
                forall|x0: int| 0 <= x0 < x ==> occupied(self@, x0, y as int),
            decreases BOARD_WIDTH - x,
        {
            if !self.has_block_at(x, y) {
                return false;
            }
            x += 1;
        }
        true
    }

    /// One clearing pass: identifies the full rows of the visible board,
    /// removes all their cells, and shifts every survivor down by the number
    /// of full rows whose index was greater than the survivor's y.  Multiple
    /// rows can clear in one call; the collapse is correct even when the
    /// cleared rows are not contiguous.
    pub fn clear_full_rows(&mut self)
        ensures
            final(self)@ == cleared(old(self)@),
    {
        let ghost orig = self.blocks@;
        let mut result: Vec<Block> = Vec::new();
        let n = self.blocks.len();
        let mut idx: usize = 0;
        while idx < n
            invariant
                self.blocks@ == orig,
                n == orig.len(),
                idx <= n,
                result@ == partial_clear(orig, idx as int),
            decreases n - idx,
        {
            let b = self.blocks[idx];
            let in_board = 0 <= b.position.y && b.position.y < BOARD_HEIGHT;
            let full_here = in_board && self.is_row_full(b.position.y);
            if !full_here {
                let mut shift: i32 = 0;
                let mut r: i32 = 0;
                while r < BOARD_HEIGHT
                    invariant
                        0 <= r <= BOARD_HEIGHT,
                        self.blocks@ == orig,
                        shift == count_full_gt(orig, 0, r as int, b.position.y as int),
                        0 <= shift <= r,
                        shift > 0 ==> b.position.y <= BOARD_HEIGHT - 2,
                    decreases BOARD_HEIGHT - r,
                {
                    if r > b.position.y && self.is_row_full(r) {
                        shift += 1;
                    }
                    r += 1;
                }
                result.push(
                    Block {
                        position: Cell { x: b.position.x, y: b.position.y + shift },
                        color_index: b.color_index,
                    },
                );
                proof {
                    assert(!removed(orig, b));
                    assert(shift == shift_for(orig, b.position.y as int));
                    assert(Block {
                        position: Cell { x: b.position.x, y: (b.position.y + shift) as i32 },
                        color_index: b.color_index,
                    } == shifted_block(orig, b));
                }
            } else {
                proof {
                    assert(removed(orig, b));
                }
            }
            proof {
                lemma_partial_clear_step(orig, idx as int);
            }
            idx += 1;
        }
        proof {
            assert(orig.subrange(0, n as int) =~= orig);
        }
        self.blocks = result;
    }
}

} // verus!
