//! The engine: a game, the player's operations on it, and undo.

use vstd::prelude::*;
use crate::types::{
    CellDisplay, CellType, Direction, GameState, LightState, PlayerObject, PlayerOperation,
    MAX_CLUE,
};
use crate::grid::{copy_grid, grid_view, in_grid, is_grid, lemma_grid_view, put, width};
use crate::light::{is_bulb, propagate};
use crate::laws::law_loaded_is_valid;
use crate::model::{
    adjacent_bulbs, blank_light, blank_marks, board_of, bulb_count_at, cursor_on, marks_fit,
    remain_grid, remain_of, remain_symbol, whole_clues, GameView, SnapshotView,
};
use crate::puzzle::{classify, LoadError, Puzzle};

verus! {

/// The player's marks and the cursor, kept so that an operation can be
/// undone.
pub struct Snapshot {
    player_objects: Vec<Vec<PlayerObject>>,
    cursor_position: (usize, usize),
}

impl View for Snapshot {
    type V = SnapshotView;

    closed spec fn view(&self) -> SnapshotView {
        SnapshotView {
            marks: grid_view(self.player_objects),
            cursor: (self.cursor_position.0 as int, self.cursor_position.1 as int),
        }
    }
}

/// A game: the board of a puzzle, the player's marks on it, and what
/// follows from them.
pub struct Game {
    state: GameState,
    puzzle: Option<Puzzle>,
    board: Vec<Vec<CellType>>,
    light_state: Vec<Vec<LightState>>,
    player_objects: Vec<Vec<PlayerObject>>,
    target_remain: Vec<Vec<Option<i8>>>,
    cursor_position: (usize, usize),
    history: Vec<Snapshot>,
}

impl View for Game {
    type V = GameView;

    closed spec fn view(&self) -> GameView {
        GameView {
            state: self.state,
            puzzle: self.puzzle,
            board: grid_view(self.board),
            light: grid_view(self.light_state),
            marks: grid_view(self.player_objects),
            remain: grid_view(self.target_remain),
            cursor: (self.cursor_position.0 as int, self.cursor_position.1 as int),
            history: Seq::new(self.history.len() as nat, |k: int| self.history[k]@),
        }
    }
}

impl Game {
    #[verifier::type_invariant]
    spec fn inv(self) -> bool {
        self@.wf()
    }

    /// A game into which no puzzle has been loaded yet.
    pub fn new() -> (game: Game)
        ensures
            game@ == GameView::fresh(),
            game@.wf(),
    {
        let game = Game {
            state: GameState::Ready,
            puzzle: None,
            board: Vec::new(),
            light_state: Vec::new(),
            player_objects: Vec::new(),
            target_remain: Vec::new(),
            cursor_position: (0, 0),
            history: Vec::new(),
        };
        assert(game@ =~~= GameView::fresh());
        game
    }

    /// Loads `puzzle` if it is well formed: the game starts anew on its
    /// board. A puzzle that is not well formed is refused and the game
    /// stays as it was.
    pub fn init_game(&mut self, puzzle: Puzzle) -> (result: Result<(), LoadError>)
        ensures
            puzzle.well_formed() ==> result is Ok && final(self)@ == GameView::loaded(puzzle),
            !puzzle.well_formed() ==> result == Err::<(), LoadError>(LoadError::Malformed)
                && final(self)@ == old(self)@,
            final(self)@.wf(),
    {
        proof {
            use_type_invariant(&*self);
        }
        if !puzzle.is_well_formed() {
            return Err(LoadError::Malformed);
        }
        *self = Game::init_board(puzzle);
        Ok(())
    }

    /// The start of a game on `puzzle`: the cells classified by their
    /// tokens, nothing marked, every open cell dark, every clue whole.
    fn init_board(puzzle: Puzzle) -> (game: Game)
        requires
            puzzle.well_formed(),
        ensures
            game@ == GameView::loaded(puzzle),
            game@.wf(),
    {
        let rows = puzzle.metadata.size.rows;
        let cols = puzzle.metadata.size.cols;
        let ghost tokens = puzzle.tokens();
        let ghost cells = board_of(tokens);
        let mut board: Vec<Vec<CellType>> = Vec::new();
        let mut light_state: Vec<Vec<LightState>> = Vec::new();
        let mut player_objects: Vec<Vec<PlayerObject>> = Vec::new();
        let mut target_remain: Vec<Vec<Option<i8>>> = Vec::new();
        let mut r: usize = 0;
        while r < rows
            invariant
                r <= rows,
                rows == puzzle.metadata.size.rows,
                cols == puzzle.metadata.size.cols,
                puzzle.well_formed(),
                tokens == puzzle.tokens(),
                cells == board_of(tokens),
                board.len() == r,
                light_state.len() == r,
                player_objects.len() == r,
                target_remain.len() == r,
                forall|k: int| 0 <= k < r ==> (#[trigger] board[k])@ == cells[k],
                forall|k: int| 0 <= k < r ==> (#[trigger] light_state[k])@ == blank_light(cells)[k],
                forall|k: int|
                    0 <= k < r ==> (#[trigger] player_objects[k])@ == blank_marks(cells)[k],
                forall|k: int|
                    0 <= k < r ==> (#[trigger] target_remain[k])@ == whole_clues(cells)[k],
            decreases rows - r,
        {
            let mut board_row: Vec<CellType> = Vec::new();
            let mut light_row: Vec<LightState> = Vec::new();
            let mut object_row: Vec<PlayerObject> = Vec::new();
            let mut remain_row: Vec<Option<i8>> = Vec::new();
            assert(tokens[r as int].len() == cols);
            let mut c: usize = 0;
            while c < cols
                invariant
                    r < rows,
                    c <= cols,
                    rows == puzzle.problem.len(),
                    cols == puzzle.problem[r as int].len(),
                    tokens == puzzle.tokens(),
                    cells == board_of(tokens),
                    board_row.len() == c,
                    light_row.len() == c,
                    object_row.len() == c,
                    remain_row.len() == c,
                    forall|k: int| 0 <= k < c ==> #[trigger] board_row[k] == cells[r as int][k],
                    forall|k: int|
                        0 <= k < c ==> #[trigger] light_row[k] == blank_light(cells)[r as int][k],
                    forall|k: int|
                        0 <= k < c ==> #[trigger] object_row[k] == blank_marks(cells)[r as int][k],
                    forall|k: int|
                        0 <= k < c ==> #[trigger] remain_row[k] == whole_clues(cells)[r as int][k],
                decreases cols - c,
            {
                let cell = classify(puzzle.problem[r][c].as_str());
                assert(cell == cells[r as int][c as int]);
                board_row.push(cell);
                match cell {
                    CellType::Empty => {
                        light_row.push(LightState::Dark);
                        object_row.push(PlayerObject::Empty);
                        remain_row.push(None);
                    },
                    CellType::Wall => {
                        light_row.push(LightState::IsWall);
                        object_row.push(PlayerObject::IsWall);
                        remain_row.push(None);
                    },
                    CellType::Target(n) => {
                        light_row.push(LightState::IsWall);
                        object_row.push(PlayerObject::IsWall);
                        remain_row.push(Some(n as i8));
                    },
                }
                c += 1;
            }
            assert(board_row@ =~= cells[r as int]);
            assert(light_row@ =~= blank_light(cells)[r as int]);
            assert(object_row@ =~= blank_marks(cells)[r as int]);
            assert(remain_row@ =~= whole_clues(cells)[r as int]);
            board.push(board_row);
            light_state.push(light_row);
            player_objects.push(object_row);
            target_remain.push(remain_row);
            r += 1;
        }
        proof {
            lemma_grid_view(board);
            lemma_grid_view(light_state);
            lemma_grid_view(player_objects);
            lemma_grid_view(target_remain);
            assert(grid_view(board) =~= cells);
            assert(grid_view(light_state) =~= blank_light(cells));
            assert(grid_view(player_objects) =~= blank_marks(cells));
            assert(grid_view(target_remain) =~= whole_clues(cells));
            law_loaded_is_valid(puzzle);
        }
        let game = Game {
            state: GameState::Ready,
            puzzle: Some(puzzle),
            board,
            light_state,
            player_objects,
            target_remain,
            cursor_position: (0, 0),
            history: Vec::new(),
        };
        assert(game@ =~~= GameView::loaded(puzzle));
        game
    }

    /// Does `operation` at the cursor, if the rules allow it; an operation
    /// they do not allow is ignored.
    pub fn player_operation(&mut self, operation: PlayerOperation)
        ensures
            final(self)@ == old(self)@.operated(operation),
            final(self)@.wf(),
    {
        match operation {
            PlayerOperation::AddLightbulb => self.toggle_bulb(),
            PlayerOperation::AddFlag => self.toggle_flag(),
        }
    }

    /// The bulb operation at the cursor: takes a bulb or a flag away, puts
    /// a bulb on an empty cell where one is allowed.
    pub fn toggle_bulb(&mut self)
        ensures
            final(self)@ == old(self)@.operated(PlayerOperation::AddLightbulb),
            final(self)@.wf(),
    {
        proof {
            use_type_invariant(&*self);
            lemma_grid_view(self.board);
            lemma_grid_view(self.player_objects);
        }
        if self.board.len() == 0 {
            return ;
        }
        let (row, col) = self.cursor_position;
        match self.player_objects[row][col] {
            PlayerObject::Lightbulb => self.place(PlayerObject::Empty),
            PlayerObject::Empty => {
                if self.bulb_allowed() {
                    self.place(PlayerObject::Lightbulb);
                }
            },
            PlayerObject::Flag => self.place(PlayerObject::Empty),
            PlayerObject::IsWall => {},
        }
    }

    /// The flag operation at the cursor: takes a flag or a bulb away, puts
    /// a flag on an empty cell that is dark.
    pub fn toggle_flag(&mut self)
        ensures
            final(self)@ == old(self)@.operated(PlayerOperation::AddFlag),
            final(self)@.wf(),
    {
        proof {
            use_type_invariant(&*self);
            lemma_grid_view(self.board);
            lemma_grid_view(self.player_objects);
            lemma_grid_view(self.light_state);
        }
        if self.board.len() == 0 {
            return ;
        }
        let (row, col) = self.cursor_position;
        match self.player_objects[row][col] {
            PlayerObject::Empty => {
                if is_dark(self.light_state[row][col]) {
                    self.place(PlayerObject::Flag);
                }
            },
            PlayerObject::Flag => self.place(PlayerObject::Empty),
            PlayerObject::Lightbulb => self.place(PlayerObject::Empty),
            PlayerObject::IsWall => {},
        }
    }

    /// Whether a bulb may be put on the cell under the cursor.
    fn bulb_allowed(&self) -> (allowed: bool)
        requires
            self@.rows() > 0,
        ensures
            allowed == self@.bulb_allowed(self@.cursor.0, self@.cursor.1),
    {
        proof {
            use_type_invariant(self);
            lemma_grid_view(self.board);
            lemma_grid_view(self.light_state);
        }
        let (row, col) = self.cursor_position;
        let rows = self.board.len();
        let cols = self.board[0].len();
        if !is_dark(self.light_state[row][col]) {
            return false;
        }
        if row > 0 && self.exhausted(row - 1, col) {
            return false;
        }
        if row + 1 < rows && self.exhausted(row + 1, col) {
            return false;
        }
        if col > 0 && self.exhausted(row, col - 1) {
            return false;
        }
        if col + 1 < cols && self.exhausted(row, col + 1) {
            return false;
        }
        true
    }

    /// Whether the cell `(r, c)` is a numbered wall with nothing left.
    fn exhausted(&self, r: usize, c: usize) -> (b: bool)
        requires
            in_grid(self@.rows(), self@.cols(), r as int, c as int),
        ensures
            b == self@.exhausted(r as int, c as int),
    {
        proof {
            use_type_invariant(self);
            lemma_grid_view(self.target_remain);
        }
        match self.target_remain[r][c] {
            Some(remain) => remain <= 0,
            None => false,
        }
    }

    /// Puts `mark` on the cell under the cursor, after a snapshot of the
    /// marks and the cursor has gone on the history.
    fn place(&mut self, mark: PlayerObject)
        requires
            old(self)@.rows() > 0,
            !(mark is IsWall),
            !(old(self)@.marks[old(self)@.cursor.0][old(self)@.cursor.1] is IsWall),
        ensures
            final(self)@ == old(self)@.marked(mark),
            final(self)@.wf(),
    {
        proof {
            use_type_invariant(&*self);
            lemma_grid_view(self.player_objects);
        }
        let ghost before = self@;
        let (row, col) = self.cursor_position;
        let mut marks = copy_grid(&self.player_objects);
        proof {
            lemma_grid_view(marks);
        }
        marks[row][col] = mark;
        proof {
            lemma_grid_view(marks);
            assert(grid_view(marks) =~~= put(before.marks, row as int, col as int, mark));
        }
        std::mem::swap(&mut self.player_objects, &mut marks);
        let snapshot = Snapshot { player_objects: marks, cursor_position: (row, col) };
        let mut history: Vec<Snapshot> = Vec::new();
        std::mem::swap(&mut self.history, &mut history);
        history.push(snapshot);
        proof {
            let taken = Seq::new(history.len() as nat, |k: int| history[k]@);
            assert(taken =~= before.history.push(snapshot@));
            assert(marks_fit(before.board, before.marks));
        }
        self.history = history;
        assert(self@ =~~= before.marked(mark));
    }

    /// Recomputes everything that follows from the marks: the illumination
    /// of every cell and what remains of every clue. The game is over if
    /// the result wins.
    pub fn update(&mut self)
        ensures
            final(self)@ == old(self)@.recomputed(),
            final(self)@.wf(),
    {
        proof {
            use_type_invariant(&*self);
        }
        let ghost before = self@;
        let light = propagate(&self.player_objects);
        let remain = count_targets(&self.board, &self.player_objects);
        self.light_state = light;
        self.target_remain = remain;
        if self.check_win() {
            self.state = GameState::GameOver;
        }
        assert(self@ =~~= before.recomputed());
    }

    /// The win predicate on the state as it stands: every open cell is
    /// lit and every clue has exactly nothing left.
    pub fn check_win(&self) -> (won: bool)
        ensures
            won == self@.won(),
    {
        proof {
            use_type_invariant(self);
            lemma_grid_view(self.board);
            lemma_grid_view(self.light_state);
            lemma_grid_view(self.target_remain);
        }
        let rows = self.board.len();
        let mut r: usize = 0;
        while r < rows
            invariant
                r <= rows,
                rows == self.board.len(),
                self@.wf(),
                forall|k: int| 0 <= k < rows ==> (#[trigger] self.board[k])@ == self@.board[k],
                forall|k: int|
                    0 <= k < rows ==> (#[trigger] self.light_state[k])@ == self@.light[k],
                forall|k: int|
                    0 <= k < rows ==> (#[trigger] self.target_remain[k])@ == self@.remain[k],
                forall|i: int, j: int|
                    0 <= i < r && 0 <= j < self@.cols() ==> #[trigger] self@.cell_done(i, j),
            decreases rows - r,
        {
            let cols = self.board[r].len();
            let mut c: usize = 0;
            while c < cols
                invariant
                    r < rows,
                    c <= cols,
                    rows == self.board.len(),
                    cols == self@.cols(),
                    self@.wf(),
                    self.board[r as int]@ == self@.board[r as int],
                    self.light_state[r as int]@ == self@.light[r as int],
                    self.target_remain[r as int]@ == self@.remain[r as int],
                    forall|i: int, j: int|
                        0 <= i < r && 0 <= j < self@.cols() ==> #[trigger] self@.cell_done(i, j),
                    forall|j: int| 0 <= j < c ==> #[trigger] self@.cell_done(r as int, j),
                decreases cols - c,
            {
                let done = match self.board[r][c] {
                    CellType::Empty => !is_dark(self.light_state[r][c]),
                    CellType::Target(_) => match self.target_remain[r][c] {
                        Some(remain) => remain == 0,
                        None => false,
                    },
                    CellType::Wall => true,
                };
                assert(done == self@.cell_done(r as int, c as int));
                if !done {
                    return false;
                }
                c += 1;
            }
            r += 1;
        }
        true
    }

    /// Takes the latest operation back: the marks and the cursor return to
    /// what they were before it, and everything is recomputed. Does
    /// nothing if no operation is left to take back.
    pub fn undo(&mut self)
        ensures
            final(self)@ == old(self)@.undone(),
            final(self)@.wf(),
    {
        proof {
            use_type_invariant(&*self);
        }
        let ghost before = self@;
        let mut history: Vec<Snapshot> = Vec::new();
        std::mem::swap(&mut self.history, &mut history);
        assert(before.history =~= Seq::new(history.len() as nat, |k: int| history[k]@));
        match history.pop() {
            Some(snapshot) => {
                let ghost last = before.history.last();
                let ghost rest = Seq::new(history.len() as nat, |k: int| history[k]@);
                proof {
                    assert(snapshot@ == last);
                    assert(rest =~= before.history.drop_last());
                    assert forall|k: int| 0 <= k < rest.len() implies marks_fit(
                        before.board,
                        (#[trigger] rest[k]).marks,
                    ) && cursor_on(before.board, rest[k].cursor) by {
                        assert(rest[k] == before.history[k]);
                    }
                }
                self.player_objects = snapshot.player_objects;
                self.cursor_position = snapshot.cursor_position;
                self.history = history;
                assert(self@ =~~= GameView {
                    marks: last.marks,
                    cursor: last.cursor,
                    history: before.history.drop_last(),
                    ..before
                });
                self.update();
            },
            None => {
                self.history = history;
                assert(self@ =~~= before);
            },
        }
    }

    /// Moves the cursor one step; at the edge of the board it stays.
    pub fn player_move_cursor(&mut self, direction: Direction)
        ensures
            final(self)@ == old(self)@.moved(direction),
            final(self)@.wf(),
    {
        proof {
            use_type_invariant(&*self);
            lemma_grid_view(self.board);
        }
        let ghost before = self@;
        let rows = self.board.len();
        if rows == 0 {
            assert(self@ =~~= before.moved(direction));
            return ;
        }
        let cols = self.board[0].len();
        let (row, col) = self.cursor_position;
        let cursor = match direction {
            Direction::Up => if row > 0 {
                (row - 1, col)
            } else {
                (row, col)
            },
            Direction::Down => if row + 1 < rows {
                (row + 1, col)
            } else {
                (row, col)
            },
            Direction::Left => if col > 0 {
                (row, col - 1)
            } else {
                (row, col)
            },
            Direction::Right => if col + 1 < cols {
                (row, col + 1)
            } else {
                (row, col)
            },
        };
        self.cursor_position = cursor;
        assert(self@ =~~= before.moved(direction));
    }

    /// A game that was ready is now being played. A game that is being
    /// played or is over stays as it is.
    pub fn start(&mut self)
        ensures
            final(self)@ == old(self)@.started(),
            final(self)@.wf(),
    {
        proof {
            use_type_invariant(&*self);
        }
        let ghost before = self@;
        match self.state {
            GameState::Ready => {
                self.state = GameState::Playing;
            },
            _ => {},
        }
        assert(self@ =~~= before.started());
    }

    /// Leaving a game changes nothing in it.
    pub fn quit(&mut self)
        ensures
            final(self)@ == old(self)@,
            final(self)@.wf(),
    {
        proof {
            use_type_invariant(&*self);
        }
    }

    /// What the board shows, cell by cell.
    pub fn get_display(&self) -> (display: Vec<Vec<CellDisplay>>)
        ensures
            grid_view(display) == self@.display(),
    {
        proof {
            use_type_invariant(self);
            lemma_grid_view(self.board);
        }
        let rows = self.board.len();
        let mut display: Vec<Vec<CellDisplay>> = Vec::new();
        let mut r: usize = 0;
        while r < rows
            invariant
                r <= rows,
                rows == self.board.len(),
                self@.wf(),
                forall|k: int| 0 <= k < rows ==> (#[trigger] self.board[k])@ == self@.board[k],
                display.len() == r,
                forall|k: int| 0 <= k < r ==> (#[trigger] display[k])@ == self@.display()[k],
            decreases rows - r,
        {
            let cols = self.board[r].len();
            let mut line: Vec<CellDisplay> = Vec::new();
            let mut c: usize = 0;
            while c < cols
                invariant
                    r < rows,
                    c <= cols,
                    rows == self.board.len(),
                    cols == self@.board[r as int].len(),
                    cols == self@.cols(),
                    self@.wf(),
                    line.len() == c,
                    forall|k: int| 0 <= k < c ==> #[trigger] line[k] == self@.display()[r as int][k],
                decreases cols - c,
            {
                line.push(self.display_priority(r, c));
                c += 1;
            }
            assert(line@ =~= self@.display()[r as int]);
            display.push(line);
            r += 1;
        }
        proof {
            lemma_grid_view(display);
            assert(grid_view(display) =~= self@.display());
        }
        display
    }

    /// What the cell `(row, col)` shows.
    fn display_priority(&self, row: usize, col: usize) -> (shown: CellDisplay)
        requires
            in_grid(self@.rows(), self@.cols(), row as int, col as int),
        ensures
            shown == self@.display_at(row as int, col as int),
    {
        proof {
            use_type_invariant(self);
            lemma_grid_view(self.board);
            lemma_grid_view(self.light_state);
            lemma_grid_view(self.player_objects);
            lemma_grid_view(self.target_remain);
        }
        match self.board[row][col] {
            CellType::Wall => CellDisplay::Wall,
            CellType::Target(_) => match self.target_remain[row][col] {
                Some(remain) => CellDisplay::Target(symbol_of(remain)),
                None => CellDisplay::Dark,
            },
            CellType::Empty => {
                if is_bulb(self.player_objects[row][col]) {
                    CellDisplay::LightBulb
                } else {
                    match self.light_state[row][col] {
                        LightState::Light(n) => CellDisplay::Light(n),
                        _ => {
                            match self.player_objects[row][col] {
                                PlayerObject::Flag => CellDisplay::Flag,
                                _ => CellDisplay::Dark,
                            }
                        },
                    }
                }
            },
        }
    }

    /// The phase of the game.
    pub fn phase(&self) -> (state: GameState)
        ensures
            state == self@.state,
    {
        self.state
    }

    /// Row and column of the cursor.
    pub fn cursor(&self) -> (position: (usize, usize))
        ensures
            (position.0 as int, position.1 as int) == self@.cursor,
    {
        self.cursor_position
    }

    /// The puzzle that was loaded, if one was.
    pub fn puzzle(&self) -> (puzzle: &Option<Puzzle>)
        ensures
            *puzzle == self@.puzzle,
    {
        &self.puzzle
    }

    /// The classification of the cells.
    pub fn board(&self) -> (board: &Vec<Vec<CellType>>)
        ensures
            grid_view(*board) == self@.board,
    {
        &self.board
    }

    /// The illumination of the cells as of the last recomputation.
    pub fn light_state(&self) -> (light: &Vec<Vec<LightState>>)
        ensures
            grid_view(*light) == self@.light,
    {
        &self.light_state
    }

    /// The player's marks.
    pub fn player_objects(&self) -> (marks: &Vec<Vec<PlayerObject>>)
        ensures
            grid_view(*marks) == self@.marks,
    {
        &self.player_objects
    }

    /// What remains of the clues as of the last recomputation.
    pub fn target_remain(&self) -> (remain: &Vec<Vec<Option<i8>>>)
        ensures
            grid_view(*remain) == self@.remain,
    {
        &self.target_remain
    }

    /// Number of operations that can be taken back.
    pub fn history_len(&self) -> (len: usize)
        ensures
            len == self@.history.len(),
    {
        self.history.len()
    }
}

/// The state is dark.
fn is_dark(state: LightState) -> (b: bool)
    ensures
        b == (state is Dark),
{
    match state {
        LightState::Dark => true,
        _ => false,
    }
}


/// The remaining count as the unsigned byte of the same bits.
fn symbol_of(remain: i8) -> (symbol: u8)
    ensures
        symbol == remain_symbol(remain),
{
    if remain >= 0 {
        remain as u8
    } else {
        (remain as i16 + 256) as u8
    }
}

/// 1 if `(r, c)` holds a bulb, else 0.
fn bulb_here(marks: &Vec<Vec<PlayerObject>>, r: usize, c: usize) -> (n: i8)
    requires
        r < marks.len(),
        c < marks[r as int].len(),
    ensures
        n == bulb_count_at(grid_view(*marks), r as int, c as int),
{
    proof {
        lemma_grid_view(*marks);
    }
    if is_bulb(marks[r][c]) {
        1
    } else {
        0
    }
}

/// What remains of every clue of the board: the clue less the number of
/// bulbs on the four orthogonal neighbours.
fn count_targets(board: &Vec<Vec<CellType>>, marks: &Vec<Vec<PlayerObject>>) -> (remain: Vec<
    Vec<Option<i8>>,
>)
    requires
        is_grid(grid_view(*board), board.len() as int, width(grid_view(*board))),
        is_grid(grid_view(*marks), board.len() as int, width(grid_view(*board))),
        forall|r: int, c: int|
            in_grid(board.len() as int, width(grid_view(*board)), r, c) ==> (
            #[trigger] grid_view(*board)[r][c] matches CellType::Target(n) ==> n <= MAX_CLUE),
    ensures
        grid_view(remain) == remain_grid(grid_view(*board), grid_view(*marks)),
{
    let ghost b = grid_view(*board);
    let ghost m = grid_view(*marks);
    proof {
        lemma_grid_view(*board);
        lemma_grid_view(*marks);
    }
    let rows = board.len();
    let mut remain: Vec<Vec<Option<i8>>> = Vec::new();
    let mut r: usize = 0;
    while r < rows
        invariant
            r <= rows,
            rows == board.len(),
            rows == marks.len(),
            b == grid_view(*board),
            m == grid_view(*marks),
            is_grid(b, rows as int, width(b)),
            is_grid(m, rows as int, width(b)),
            forall|i: int, j: int|
                in_grid(rows as int, width(b), i, j) ==> (#[trigger] b[i][j] matches CellType::Target(
                    n,
                ) ==> n <= MAX_CLUE),
            forall|k: int| 0 <= k < rows ==> (#[trigger] board[k])@ == b[k],
            forall|k: int| 0 <= k < rows ==> (#[trigger] marks[k])@ == m[k],
            remain.len() == r,
            forall|k: int| 0 <= k < r ==> (#[trigger] remain[k])@ == remain_grid(b, m)[k],
        decreases rows - r,
    {
        let cols = board[r].len();
        assert(b[0].len() == width(b));
        let mut line: Vec<Option<i8>> = Vec::new();
        let mut c: usize = 0;
        while c < cols
            invariant
                r < rows,
                c <= cols,
                rows == board.len(),
                rows == marks.len(),
                cols == width(b),
                b == grid_view(*board),
                m == grid_view(*marks),
                is_grid(b, rows as int, width(b)),
                is_grid(m, rows as int, width(b)),
                forall|i: int, j: int|
                    in_grid(rows as int, width(b), i, j) ==> (
                    #[trigger] b[i][j] matches CellType::Target(n) ==> n <= MAX_CLUE),
                forall|k: int| 0 <= k < rows ==> (#[trigger] board[k])@ == b[k],
                forall|k: int| 0 <= k < rows ==> (#[trigger] marks[k])@ == m[k],
                line.len() == c,
                forall|k: int| 0 <= k < c ==> #[trigger] line[k] == remain_grid(b, m)[r as int][k],
            decreases cols - c,
        {
            let left = match board[r][c] {
                CellType::Target(clue) => {
                    assert(b[r as int][c as int] == CellType::Target(clue));
                    let mut count: i8 = 0;
                    if r > 0 {
                        count = count + bulb_here(marks, r - 1, c);
                    }
                    if r + 1 < rows {
                        count = count + bulb_here(marks, r + 1, c);
                    }
                    if c > 0 {
                        count = count + bulb_here(marks, r, c - 1);
                    }
                    if c + 1 < cols {
                        count = count + bulb_here(marks, r, c + 1);
                    }
                    assert(count == adjacent_bulbs(m, r as int, c as int));
                    Some(clue as i8 - count)
                },
                _ => None,
            };
            assert(left == remain_of(b, m, r as int, c as int));
            line.push(left);
            c += 1;
        }
        assert(line@ =~= remain_grid(b, m)[r as int]);
        remain.push(line);
        r += 1;
    }
    proof {
        lemma_grid_view(remain);
        assert(grid_view(remain) =~= remain_grid(b, m));
    }
    remain
}

} // verus!
