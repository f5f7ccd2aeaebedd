//! The piece catalog: seven fixed shapes, each given as four relative cell
//! offsets plus a color identifier.  Pure and stateless.

use vstd::prelude::*;

verus! {

/// Number of shapes in the catalog.
pub const TETROMINO_COUNT: usize = 7;

/// An integer grid coordinate.  Used both for the relative offsets of a
/// shape and for absolute board positions (x grows rightward, y downward).
#[derive(Clone, Copy, PartialEq, Eq, Structural, Debug)]
pub struct Cell {
    pub x: i32,
    pub y: i32,
}

/// A catalog entry: four relative cell offsets plus a color identifier.
/// The color identifier equals the shape's catalog index; the host program
/// maps it to an actual color when drawing.
#[derive(Debug)]
pub struct Tetromino {
    pub block_positions: Vec<Cell>,
    pub color_index: usize,
}

/// The four relative offsets of catalog shape `index`
/// (0 = I, 1 = J, 2 = L, 3 = O, 4 = S, 5 = T, 6 = Z).
pub open spec fn shape_cells_spec(index: int) -> Seq<Cell> {
    if index == 0 {
        seq![Cell { x: 0, y: 1 }, Cell { x: 1, y: 1 }, Cell { x: 2, y: 1 }, Cell { x: 3, y: 1 }]
    } else if index == 1 {
        seq![Cell { x: 0, y: 0 }, Cell { x: 0, y: 1 }, Cell { x: 1, y: 1 }, Cell { x: 2, y: 1 }]
    } else if index == 2 {
        seq![Cell { x: 0, y: 1 }, Cell { x: 1, y: 1 }, Cell { x: 2, y: 1 }, Cell { x: 2, y: 0 }]
    } else if index == 3 {
        seq![Cell { x: 0, y: 0 }, Cell { x: 0, y: 1 }, Cell { x: 1, y: 1 }, Cell { x: 1, y: 0 }]
    } else if index == 4 {
        seq![Cell { x: 0, y: 1 }, Cell { x: 1, y: 1 }, Cell { x: 1, y: 0 }, Cell { x: 2, y: 0 }]
    } else if index == 5 {
        seq![Cell { x: 0, y: 1 }, Cell { x: 1, y: 1 }, Cell { x: 1, y: 0 }, Cell { x: 2, y: 1 }]
    } else {
        seq![Cell { x: 0, y: 0 }, Cell { x: 1, y: 0 }, Cell { x: 1, y: 1 }, Cell { x: 2, y: 1 }]
    }
}

/// Every catalog shape has exactly four cells, all offsets inside a small
/// box near the origin.
pub proof fn lemma_shape_cells_bounds(index: int)
    requires
        0 <= index < TETROMINO_COUNT,
    ensures
        shape_cells_spec(index).len() == 4,
        forall|i: int|
            0 <= i < 4 ==> 0 <= (#[trigger] shape_cells_spec(index)[i]).x <= 3 && 0
                <= shape_cells_spec(index)[i].y <= 1,
{
}

/// The relative offsets of catalog shape `index`, as a vector.
pub fn shape_cells(index: usize) -> (r: Vec<Cell>)
    requires
        index < TETROMINO_COUNT,
    ensures
        r@ == shape_cells_spec(index as int),
{
    let r: Vec<Cell> = if index == 0 {
        vec![Cell { x: 0, y: 1 }, Cell { x: 1, y: 1 }, Cell { x: 2, y: 1 }, Cell { x: 3, y: 1 }]
    } else if index == 1 {
        vec![Cell { x: 0, y: 0 }, Cell { x: 0, y: 1 }, Cell { x: 1, y: 1 }, Cell { x: 2, y: 1 }]
    } else if index == 2 {
        vec![Cell { x: 0, y: 1 }, Cell { x: 1, y: 1 }, Cell { x: 2, y: 1 }, Cell { x: 2, y: 0 }]
    } else if index == 3 {
        vec![Cell { x: 0, y: 0 }, Cell { x: 0, y: 1 }, Cell { x: 1, y: 1 }, Cell { x: 1, y: 0 }]
    } else if index == 4 {
        vec![Cell { x: 0, y: 1 }, Cell { x: 1, y: 1 }, Cell { x: 1, y: 0 }, Cell { x: 2, y: 0 }]
    } else if index == 5 {
        vec![Cell { x: 0, y: 1 }, Cell { x: 1, y: 1 }, Cell { x: 1, y: 0 }, Cell { x: 2, y: 1 }]
    } else {
        vec![Cell { x: 0, y: 0 }, Cell { x: 1, y: 0 }, Cell { x: 1, y: 1 }, Cell { x: 2, y: 1 }]
    };
    proof {
        assert(r@ =~= shape_cells_spec(index as int));
    }
    r
}

/// The catalog entry for shape `index`.
pub fn tetromino(index: usize) -> (t: Tetromino)
    requires
        index < TETROMINO_COUNT,
    ensures
        t.block_positions@ == shape_cells_spec(index as int),
        t.color_index == index,
{
    Tetromino { block_positions: shape_cells(index), color_index: index }
}

} // verus!
