//! The puzzle record and how its tokens classify the cells.

use vstd::prelude::*;
use crate::types::CellType;
use crate::grid::is_grid;

verus! {

/// Dimensions of a puzzle.
#[derive(Debug)]
pub struct PuzzleSize {
    pub cols: usize,
    pub rows: usize,
    pub unit: u32,
}

/// Descriptive data of a puzzle.
#[derive(Debug)]
pub struct PuzzleMetadata {
    pub puzzle_type: String,
    pub author: String,
    pub solver: String,
    pub source: String,
    pub info: String,
    pub size: PuzzleSize,
}

/// One puzzle: its id, its metadata and its grid of cell tokens.
#[derive(Debug)]
pub struct Puzzle {
    pub id: u32,
    pub metadata: PuzzleMetadata,
    pub problem: Vec<Vec<String>>,
}

/// Why a puzzle could not be loaded.
#[derive(PartialEq, Eq, Structural, Clone, Copy, Debug)]
pub enum LoadError {
    /// There is no record for the id.
    NotFound,
    /// The record does not describe a board.
    Malformed,
}

/// Rows and columns of a board add up to this at most, so that the number
/// of bulbs that shine on one cell fits a byte.
pub const MAX_SPAN: usize = 257;

/// The cell a token stands for: `x` a wall, `0` to `4` a numbered wall,
/// anything else an open cell.
pub open spec fn cell_of_token(token: Seq<char>) -> CellType {
    if token == seq!['x'] {
        CellType::Wall
    } else if token == seq!['0'] {
        CellType::Target(0)
    } else if token == seq!['1'] {
        CellType::Target(1)
    } else if token == seq!['2'] {
        CellType::Target(2)
    } else if token == seq!['3'] {
        CellType::Target(3)
    } else if token == seq!['4'] {
        CellType::Target(4)
    } else {
        CellType::Empty
    }
}

/// Classifies one token.
pub fn classify(token: &str) -> (cell: CellType)
    ensures
        cell == cell_of_token(token@),
{
    if token.unicode_len() != 1 {
        return CellType::Empty;
    }
    let ch = token.get_char(0);
    assert(token@ =~= seq![ch]);
    if ch == 'x' {
        CellType::Wall
    } else if ch == '0' {
        CellType::Target(0)
    } else if ch == '1' {
        CellType::Target(1)
    } else if ch == '2' {
        CellType::Target(2)
    } else if ch == '3' {
        CellType::Target(3)
    } else if ch == '4' {
        CellType::Target(4)
    } else {
        CellType::Empty
    }
}

impl Puzzle {
    /// The tokens of the problem grid.
    pub open spec fn tokens(&self) -> Seq<Seq<Seq<char>>> {
        Seq::new(
            self.problem.len() as nat,
            |r: int| Seq::new(self.problem[r].len() as nat, |c: int| self.problem[r][c]@),
        )
    }

    /// The record describes a board: at least one row and one column, no
    /// more than `MAX_SPAN` of them together, and a problem grid of exactly
    /// the stated size.
    pub open spec fn well_formed(&self) -> bool {
        &&& 1 <= self.metadata.size.rows
        &&& 1 <= self.metadata.size.cols
        &&& self.metadata.size.rows + self.metadata.size.cols <= MAX_SPAN
        &&& is_grid(self.tokens(), self.metadata.size.rows as int, self.metadata.size.cols as int)
    }

    /// Structural validation of a record.
    pub fn is_well_formed(&self) -> (ok: bool)
        ensures
            ok == self.well_formed(),
    {
        let rows = self.metadata.size.rows;
        let cols = self.metadata.size.cols;
        if rows < 1 || cols < 1 || rows > MAX_SPAN || cols > MAX_SPAN - rows {
            return false;
        }
        if self.problem.len() != rows {
            return false;
        }
        let mut r: usize = 0;
        while r < rows
            invariant
                r <= rows,
                rows == self.metadata.size.rows,
                cols == self.metadata.size.cols,
                rows == self.problem.len(),
                forall|k: int| 0 <= k < r ==> (#[trigger] self.problem[k]).len() == cols,
            decreases rows - r,
        {
            if self.problem[r].len() != cols {
                assert(self.tokens()[r as int].len() == self.problem[r as int].len());
                return false;
            }
            r += 1;
        }
        assert forall|k: int| 0 <= k < rows implies (#[trigger] self.tokens()[k]).len() == cols by {
            assert(self.tokens()[k].len() == self.problem[k].len());
        }
        true
    }
}

} // verus!
