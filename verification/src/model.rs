//! The game as a mathematical state and its moves as functions on states.

use vstd::prelude::*;
use crate::types::{
    CellDisplay, CellType, Direction, GameState, LightState, PlayerObject, PlayerOperation,
    MAX_CLUE,
};
use crate::grid::{in_grid, is_grid, put, width};
use crate::light::light_grid;
use crate::puzzle::{cell_of_token, Puzzle, MAX_SPAN};

verus! {

/// The player's marks and the cursor as they were before an accepted
/// operation.
#[verifier::ext_equal]
pub struct SnapshotView {
    pub marks: Seq<Seq<PlayerObject>>,
    pub cursor: (int, int),
}

/// The state of a game.
#[verifier::ext_equal]
pub struct GameView {
    pub state: GameState,
    pub puzzle: Option<Puzzle>,
    /// Classification of the cells, fixed by the puzzle.
    pub board: Seq<Seq<CellType>>,
    /// Illumination as of the last recomputation.
    pub light: Seq<Seq<LightState>>,
    /// The player's marks.
    pub marks: Seq<Seq<PlayerObject>>,
    /// What remains of each clue as of the last recomputation.
    pub remain: Seq<Seq<Option<i8>>>,
    /// Row and column of the cursor.
    pub cursor: (int, int),
    /// Snapshots taken before the accepted operations, oldest first.
    pub history: Seq<SnapshotView>,
}

/// 1 if `(r, c)` is a cell of the grid and holds a bulb, else 0.
pub open spec fn bulb_count_at(marks: Seq<Seq<PlayerObject>>, r: int, c: int) -> int {
    if 0 <= r < marks.len() && 0 <= c < marks[r].len() && marks[r][c] is Lightbulb {
        1
    } else {
        0
    }
}

/// Number of bulbs on the four orthogonal neighbours of `(r, c)`.
pub open spec fn adjacent_bulbs(marks: Seq<Seq<PlayerObject>>, r: int, c: int) -> int {
    bulb_count_at(marks, r - 1, c) + bulb_count_at(marks, r + 1, c) + bulb_count_at(
        marks,
        r,
        c - 1,
    ) + bulb_count_at(marks, r, c + 1)
}

/// What remains of the clue at `(r, c)`: the clue less the adjacent bulbs,
/// which may be negative; nothing for a cell without a clue.
pub open spec fn remain_of(
    board: Seq<Seq<CellType>>,
    marks: Seq<Seq<PlayerObject>>,
    r: int,
    c: int,
) -> Option<i8> {
    match board[r][c] {
        CellType::Target(n) => Some((n - adjacent_bulbs(marks, r, c)) as i8),
        _ => None,
    }
}

/// What remains of every clue of the board.
pub open spec fn remain_grid(board: Seq<Seq<CellType>>, marks: Seq<Seq<PlayerObject>>) -> Seq<
    Seq<Option<i8>>,
> {
    Seq::new(board.len(), |r: int| Seq::new(board[r].len(), |c: int| remain_of(board, marks, r, c)))
}

/// A remaining count as the unsigned byte that a display holds: itself if
/// it is not negative, else 256 more.
pub open spec fn remain_symbol(x: i8) -> u8 {
    if x >= 0 {
        x as u8
    } else {
        (x + 256) as u8
    }
}

/// The marks of a board on which the player has put nothing.
pub open spec fn blank_marks(board: Seq<Seq<CellType>>) -> Seq<Seq<PlayerObject>> {
    Seq::new(
        board.len(),
        |r: int|
            Seq::new(
                board[r].len(),
                |c: int|
                    if board[r][c] is Empty {
                        PlayerObject::Empty
                    } else {
                        PlayerObject::IsWall
                    },
            ),
    )
}

/// The illumination of a board without a bulb: every open cell dark.
pub open spec fn blank_light(board: Seq<Seq<CellType>>) -> Seq<Seq<LightState>> {
    Seq::new(
        board.len(),
        |r: int|
            Seq::new(
                board[r].len(),
                |c: int|
                    if board[r][c] is Empty {
                        LightState::Dark
                    } else {
                        LightState::IsWall
                    },
            ),
    )
}

/// The remaining counts of a board without a bulb: every clue whole.
pub open spec fn whole_clues(board: Seq<Seq<CellType>>) -> Seq<Seq<Option<i8>>> {
    Seq::new(
        board.len(),
        |r: int|
            Seq::new(
                board[r].len(),
                |c: int|
                    match board[r][c] {
                        CellType::Target(n) => Some(n as i8),
                        _ => None,
                    },
            ),
    )
}

/// The classification of the cells of a puzzle.
pub open spec fn board_of(tokens: Seq<Seq<Seq<char>>>) -> Seq<Seq<CellType>> {
    Seq::new(tokens.len(), |r: int| Seq::new(tokens[r].len(), |c: int| cell_of_token(tokens[r][c])))
}

/// Classification, illumination, mark and remaining count are those of
/// one cell: all four say wall or all four say open, only a numbered wall
/// has a remaining count, and no clue is above `MAX_CLUE`.
pub open spec fn cell_agrees(
    cell: CellType,
    light: LightState,
    mark: PlayerObject,
    remain: Option<i8>,
) -> bool {
    match cell {
        CellType::Empty => !(mark is IsWall) && !(light is IsWall) && remain is None,
        CellType::Wall => mark is IsWall && light is IsWall && remain is None,
        CellType::Target(n) => n <= MAX_CLUE && mark is IsWall && light is IsWall && remain is Some,
    }
}

/// The four grids of a game have one size, which is within `MAX_SPAN` and
/// has no row without a cell, and agree on every cell.
pub open spec fn grids_agree(
    board: Seq<Seq<CellType>>,
    light: Seq<Seq<LightState>>,
    marks: Seq<Seq<PlayerObject>>,
    remain: Seq<Seq<Option<i8>>>,
) -> bool {
    let rows = board.len() as int;
    let cols = width(board);
    &&& is_grid(board, rows, cols)
    &&& is_grid(light, rows, cols)
    &&& is_grid(marks, rows, cols)
    &&& is_grid(remain, rows, cols)
    &&& rows + cols <= MAX_SPAN
    &&& rows > 0 ==> cols > 0
    &&& forall|r: int, c: int|
        #![trigger board[r][c]]
        #![trigger light[r][c]]
        #![trigger marks[r][c]]
        #![trigger remain[r][c]]
        in_grid(rows, cols, r, c) ==> cell_agrees(
            board[r][c],
            light[r][c],
            marks[r][c],
            remain[r][c],
        )
}

/// `marks` is a grid of marks for `board`: of its size, with a wall
/// exactly where the board has one.
pub open spec fn marks_fit(board: Seq<Seq<CellType>>, marks: Seq<Seq<PlayerObject>>) -> bool {
    &&& is_grid(marks, board.len() as int, width(board))
    &&& forall|r: int, c: int|
        #![trigger marks[r][c]]
        in_grid(board.len() as int, width(board), r, c) ==> (marks[r][c] is IsWall) != (
        board[r][c] is Empty)
}

/// The cursor is on the board: on one of its cells, or at the origin where
/// the board has no cell.
pub open spec fn cursor_on(board: Seq<Seq<CellType>>, cursor: (int, int)) -> bool {
    if board.len() == 0 {
        cursor == (0int, 0int)
    } else {
        in_grid(board.len() as int, width(board), cursor.0, cursor.1)
    }
}

/// Every snapshot of `history` could be put back on `board`.
pub open spec fn restorable(board: Seq<Seq<CellType>>, history: Seq<SnapshotView>) -> bool {
    forall|k: int|
        0 <= k < history.len() ==> marks_fit(board, (#[trigger] history[k]).marks) && cursor_on(
            board,
            history[k].cursor,
        )
}

impl GameView {
    pub open spec fn rows(self) -> int {
        self.board.len() as int
    }

    pub open spec fn cols(self) -> int {
        width(self.board)
    }

    /// The invariant of a game: the four grids agree, the cursor is on the
    /// board, and every snapshot could be put back.
    pub open spec fn wf(self) -> bool {
        &&& grids_agree(self.board, self.light, self.marks, self.remain)
        &&& cursor_on(self.board, self.cursor)
        &&& restorable(self.board, self.history)
    }

    /// A game into which no puzzle has been loaded.
    pub open spec fn fresh() -> GameView {
        GameView {
            state: GameState::Ready,
            puzzle: None,
            board: Seq::empty(),
            light: Seq::empty(),
            marks: Seq::empty(),
            remain: Seq::empty(),
            cursor: (0, 0),
            history: Seq::empty(),
        }
    }

    /// The start of a game on `puzzle`: nothing marked, every open cell
    /// dark, every clue whole, the cursor at the origin, no history.
    pub open spec fn loaded(puzzle: Puzzle) -> GameView {
        let board = board_of(puzzle.tokens());
        GameView {
            state: GameState::Ready,
            puzzle: Some(puzzle),
            board,
            light: blank_light(board),
            marks: blank_marks(board),
            remain: whole_clues(board),
            cursor: (0, 0),
            history: Seq::empty(),
        }
    }

    /// The cell `(r, c)` asks nothing more: an open cell is lit, a clue
    /// has exactly nothing left.
    pub open spec fn cell_done(self, r: int, c: int) -> bool {
        match self.board[r][c] {
            CellType::Empty => !(self.light[r][c] is Dark),
            CellType::Target(_) => self.remain[r][c] == Some(0i8),
            CellType::Wall => true,
        }
    }

    /// The win predicate: every open cell is lit and every clue has
    /// exactly nothing left.
    pub open spec fn won(self) -> bool {
        forall|r: int, c: int|
            in_grid(self.rows(), self.cols(), r, c) ==> #[trigger] self.cell_done(r, c)
    }

    /// The state after a recomputation: illumination and remaining counts
    /// are rebuilt from the marks, and the game is over if that wins.
    pub open spec fn recomputed(self) -> GameView {
        let lit = GameView {
            light: light_grid(self.marks),
            remain: remain_grid(self.board, self.marks),
            ..self
        };
        GameView {
            state: if lit.won() {
                GameState::GameOver
            } else {
                self.state
            },
            ..lit
        }
    }

    /// The state after `start`: a game that was ready is being played.
    pub open spec fn started(self) -> GameView {
        GameView {
            state: if self.state is Ready {
                GameState::Playing
            } else {
                self.state
            },
            ..self
        }
    }

    /// The state after a step of the cursor, which stays where it is at
    /// the edge of the board.
    pub open spec fn moved(self, direction: Direction) -> GameView {
        let (r, c) = self.cursor;
        let cursor = match direction {
            Direction::Up => if r > 0 {
                (r - 1, c)
            } else {
                (r, c)
            },
            Direction::Down => if r + 1 < self.rows() {
                (r + 1, c)
            } else {
                (r, c)
            },
            Direction::Left => if c > 0 {
                (r, c - 1)
            } else {
                (r, c)
            },
            Direction::Right => if c + 1 < self.cols() {
                (r, c + 1)
            } else {
                (r, c)
            },
        };
        GameView { cursor, ..self }
    }

    /// `(r, c)` is a numbered wall of the board that, as of the last
    /// recomputation, has nothing left or less.
    pub open spec fn exhausted(self, r: int, c: int) -> bool {
        &&& in_grid(self.rows(), self.cols(), r, c)
        &&& self.remain[r][c] matches Some(x)
        &&& x <= 0
    }

    /// A bulb may be put on the empty cell `(r, c)`: the cell is dark as of
    /// the last recomputation and none of its four neighbours is an
    /// exhausted numbered wall.
    pub open spec fn bulb_allowed(self, r: int, c: int) -> bool {
        &&& self.light[r][c] is Dark
        &&& !self.exhausted(r - 1, c)
        &&& !self.exhausted(r + 1, c)
        &&& !self.exhausted(r, c - 1)
        &&& !self.exhausted(r, c + 1)
    }

    /// The state after an accepted operation that leaves `mark` at the
    /// cursor: the marks and the cursor as they were go on the history.
    pub open spec fn marked(self, mark: PlayerObject) -> GameView {
        GameView {
            marks: put(self.marks, self.cursor.0, self.cursor.1, mark),
            history: self.history.push(SnapshotView { marks: self.marks, cursor: self.cursor }),
            ..self
        }
    }

    /// What the bulb operation leaves at the cursor, if it is accepted:
    /// a bulb or a flag is taken away, an empty cell gets a bulb where one
    /// is allowed; on a wall and on an empty cell where none is allowed the
    /// operation is ignored.
    pub open spec fn bulb_outcome(self) -> Option<PlayerObject> {
        let (r, c) = self.cursor;
        if self.rows() == 0 {
            None
        } else {
            match self.marks[r][c] {
                PlayerObject::Lightbulb => Some(PlayerObject::Empty),
                PlayerObject::Flag => Some(PlayerObject::Empty),
                PlayerObject::Empty => if self.bulb_allowed(r, c) {
                    Some(PlayerObject::Lightbulb)
                } else {
                    None
                },
                PlayerObject::IsWall => None,
            }
        }
    }

    /// What the flag operation leaves at the cursor, if it is accepted: a
    /// flag or a bulb is taken away, an empty cell that is dark as of the
    /// last recomputation gets a flag; on a wall and on a lit empty cell
    /// the operation is ignored.
    pub open spec fn flag_outcome(self) -> Option<PlayerObject> {
        let (r, c) = self.cursor;
        if self.rows() == 0 {
            None
        } else {
            match self.marks[r][c] {
                PlayerObject::Empty => if self.light[r][c] is Dark {
                    Some(PlayerObject::Flag)
                } else {
                    None
                },
                PlayerObject::Flag => Some(PlayerObject::Empty),
                PlayerObject::Lightbulb => Some(PlayerObject::Empty),
                PlayerObject::IsWall => None,
            }
        }
    }

    /// What `operation` leaves at the cursor, if it is accepted.
    pub open spec fn outcome(self, operation: PlayerOperation) -> Option<PlayerObject> {
        match operation {
            PlayerOperation::AddLightbulb => self.bulb_outcome(),
            PlayerOperation::AddFlag => self.flag_outcome(),
        }
    }

    /// The state after `operation` at the cursor: unchanged if it is
    /// ignored.
    pub open spec fn operated(self, operation: PlayerOperation) -> GameView {
        match self.outcome(operation) {
            Some(mark) => self.marked(mark),
            None => self,
        }
    }

    /// The state after `undo`: the latest snapshot is taken off the history
    /// and put back, and everything is recomputed; unchanged if there is
    /// no snapshot.
    pub open spec fn undone(self) -> GameView {
        if self.history.len() == 0 {
            self
        } else {
            let last = self.history.last();
            GameView {
                marks: last.marks,
                cursor: last.cursor,
                history: self.history.drop_last(),
                ..self
            }.recomputed()
        }
    }

    /// What the cell `(r, c)` shows. A wall comes before a clue, a clue
    /// before a bulb, a bulb before a level of light, light before a flag,
    /// and a cell with none of these is dark.
    pub open spec fn display_at(self, r: int, c: int) -> CellDisplay {
        match self.board[r][c] {
            CellType::Wall => CellDisplay::Wall,
            CellType::Target(_) => match self.remain[r][c] {
                Some(x) => CellDisplay::Target(remain_symbol(x)),
                None => CellDisplay::Dark,
            },
            CellType::Empty => match (self.marks[r][c], self.light[r][c]) {
                (PlayerObject::Lightbulb, _) => CellDisplay::LightBulb,
                (_, LightState::Light(n)) => CellDisplay::Light(n),
                (PlayerObject::Flag, _) => CellDisplay::Flag,
                _ => CellDisplay::Dark,
            },
        }
    }

    /// What the board shows.
    pub open spec fn display(self) -> Seq<Seq<CellDisplay>> {
        Seq::new(
            self.board.len(),
            |r: int| Seq::new(self.board[r].len(), |c: int| self.display_at(r, c)),
        )
    }
}

} // verus!
