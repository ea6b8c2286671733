//! What holds of every game, proved from the model.

use vstd::prelude::*;
use crate::types::{
    CellType, Direction, LightState, PlayerObject, PlayerOperation, MAX_CLUE, MAX_LEVEL,
};
use crate::grid::{in_grid, is_grid};
use crate::light::{
    bulb_at, bulbs_in_row, bulbs_in_rows, bulbs_seeing, lemma_bulbs_seeing_bound, light_grid,
    light_of,
};
use crate::model::{adjacent_bulbs, cursor_on, marks_fit, remain_grid, restorable, GameView};
use crate::puzzle::{Puzzle, MAX_SPAN};

verus! {

/// After a recomputation every open cell is either dark or lit at a level
/// of at least 1: no cell is left at level 0, and none is taken for a wall.
pub proof fn law_propagation_total(v: GameView, r: int, c: int)
    requires
        v.wf(),
        in_grid(v.rows(), v.cols(), r, c),
        v.board[r][c] is Empty,
    ensures
        match v.recomputed().light[r][c] {
            LightState::Dark => true,
            LightState::Light(level) => level >= 1,
            LightState::IsWall => false,
        },
{
    lemma_bulbs_seeing_bound(v.marks, v.cols(), r, c);
}

/// After a recomputation a cell that holds a bulb is at the maximum level,
/// however many other bulbs shine on it.
pub proof fn law_bulb_at_max_level(v: GameView, r: int, c: int)
    requires
        v.wf(),
        in_grid(v.rows(), v.cols(), r, c),
        v.marks[r][c] is Lightbulb,
    ensures
        v.recomputed().light[r][c] == LightState::Light(MAX_LEVEL),
{
}

/// After a recomputation the level of an open cell without a bulb is the
/// number of bulbs that shine on it, and the cell is dark exactly if there
/// is none.
pub proof fn law_level_counts_bulbs(v: GameView, r: int, c: int)
    requires
        v.wf(),
        in_grid(v.rows(), v.cols(), r, c),
        v.board[r][c] is Empty,
        !(v.marks[r][c] is Lightbulb),
    ensures
        bulbs_seeing(v.marks, r, c) == 0 ==> v.recomputed().light[r][c] == LightState::Dark,
        bulbs_seeing(v.marks, r, c) > 0 ==> (v.recomputed().light[r][c] matches LightState::Light(
            level,
        ) && level == bulbs_seeing(v.marks, r, c)),
{
    lemma_bulbs_seeing_bound(v.marks, v.cols(), r, c);
}

/// A second recomputation changes nothing: illumination, remaining counts
/// and phase are what the first one left.
pub proof fn law_recompute_idempotent(v: GameView)
    requires
        v.wf(),
    ensures
        v.recomputed().recomputed() == v.recomputed(),
{
    let once = v.recomputed();
    let twice = once.recomputed();
    assert(twice.light == once.light);
    assert(twice.remain == once.remain);
    let lit = GameView { light: once.light, remain: once.remain, ..v };
    let relit = GameView { light: once.light, remain: once.remain, ..once };
    assert(lit.won() == relit.won()) by {
        assert forall|r: int, c: int| lit.cell_done(r, c) == relit.cell_done(r, c) by {}
    }
    assert(twice =~~= once);
}

/// After a recomputation what remains of a clue is exactly the clue less
/// the number of bulbs on the four orthogonal neighbours, which may be
/// negative; a cell without a clue has no remaining count.
pub proof fn law_accounting_exact(v: GameView, r: int, c: int)
    requires
        v.wf(),
        in_grid(v.rows(), v.cols(), r, c),
    ensures
        match v.board[r][c] {
            CellType::Target(clue) => v.recomputed().remain[r][c] matches Some(left) && left
                == clue - adjacent_bulbs(v.marks, r, c),
            _ => v.recomputed().remain[r][c] is None,
        },
        0 <= adjacent_bulbs(v.marks, r, c) <= 4,
{
}

/// Once the game is over it stays over: no operation of the player, no
/// undo, no recomputation, no step of the cursor and no start changes the
/// phase.
pub proof fn law_game_over_is_terminal(
    v: GameView,
    operation: PlayerOperation,
    direction: Direction,
)
    requires
        v.state is GameOver,
    ensures
        v.operated(operation).state is GameOver,
        v.undone().state is GameOver,
        v.recomputed().state is GameOver,
        v.moved(direction).state is GameOver,
        v.started().state is GameOver,
{
}

/// An accepted operation followed by an undo leaves the marks and the
/// cursor as they were before the operation. The same holds of an ignored
/// operation where the history is empty.
pub proof fn law_undo_restores(v: GameView, operation: PlayerOperation)
    requires
        v.wf(),
        v.outcome(operation) is Some || v.history.len() == 0,
    ensures
        v.operated(operation).undone().marks == v.marks,
        v.operated(operation).undone().cursor == v.cursor,
        v.operated(operation).undone().history == v.history,
{
    if v.outcome(operation) is Some {
        let mark = v.outcome(operation)->0;
        let done = v.marked(mark);
        assert(done.history.last().marks == v.marks);
        assert(done.history.drop_last() =~= v.history);
    }
}

/// An operation that is ignored leaves the state as it was: nothing is
/// marked and no snapshot is taken.
pub proof fn law_ignored_changes_nothing(v: GameView, operation: PlayerOperation)
    requires
        v.outcome(operation) is None,
    ensures
        v.operated(operation) == v,
{
}

/// A game that is over was won or had been over before.
pub proof fn law_game_over_by_winning(v: GameView)
    ensures
        v.recomputed().state is GameOver <==> v.recomputed().won() || v.state is GameOver,
{
    let once = v.recomputed();
    let lit = GameView { light: once.light, remain: once.remain, ..v };
    assert(lit.won() == once.won()) by {
        assert forall|r: int, c: int| lit.cell_done(r, c) == once.cell_done(r, c) by {}
    }
}

/// The start of a game on a well-formed puzzle is a valid state.
pub proof fn law_loaded_is_valid(puzzle: Puzzle)
    requires
        puzzle.well_formed(),
    ensures
        GameView::loaded(puzzle).wf(),
{
    let v = GameView::loaded(puzzle);
    let tokens = puzzle.tokens();
    assert(tokens[0].len() == puzzle.metadata.size.cols);
    assert(v.cols() == puzzle.metadata.size.cols);
    assert forall|r: int| 0 <= r < v.rows() implies (#[trigger] v.board[r]).len() == v.cols() by {
        assert(tokens[r].len() == v.cols());
    }
}

/// The start of a game is as if it had just been recomputed: with no bulb
/// on the board, every open cell is dark and every clue is whole.
pub proof fn law_loaded_is_recomputed(puzzle: Puzzle)
    requires
        puzzle.well_formed(),
    ensures
        GameView::loaded(puzzle).light == light_grid(GameView::loaded(puzzle).marks),
        GameView::loaded(puzzle).remain == remain_grid(
            GameView::loaded(puzzle).board,
            GameView::loaded(puzzle).marks,
        ),
{
    let v = GameView::loaded(puzzle);
    law_loaded_is_valid(puzzle);
    assert forall|r: int, c: int| in_grid(v.rows(), v.cols(), r, c) implies #[trigger] light_of(
        v.marks,
        r,
        c,
    ) == v.light[r][c] by {
        lemma_no_bulb_in_rows(v.marks, v.rows(), r, c);
    }
    assert(v.light =~~= light_grid(v.marks));
    assert(v.remain =~~= remain_grid(v.board, v.marks));
}

/// Where no cell holds a bulb, no bulb of a row shines on `(r, c)`.
proof fn lemma_no_bulb_in_row(marks: Seq<Seq<PlayerObject>>, i: int, n: int, r: int, c: int)
    requires
        0 <= i < marks.len(),
        0 <= n <= marks[i].len(),
        forall|a: int, b: int|
            0 <= a < marks.len() && 0 <= b < marks[a].len() ==> !#[trigger] bulb_at(marks, a, b),
    ensures
        bulbs_in_row(marks, i, n, r, c) == 0,
    decreases n,
{
    if n > 0 {
        lemma_no_bulb_in_row(marks, i, n - 1, r, c);
        assert(!bulb_at(marks, i, n - 1));
    }
}

/// Where no cell holds a bulb, no bulb of the board shines on `(r, c)`.
proof fn lemma_no_bulb_in_rows(marks: Seq<Seq<PlayerObject>>, m: int, r: int, c: int)
    requires
        0 <= m <= marks.len(),
        forall|a: int, b: int|
            0 <= a < marks.len() && 0 <= b < marks[a].len() ==> !#[trigger] bulb_at(marks, a, b),
    ensures
        bulbs_in_rows(marks, m, r, c) == 0,
    decreases m,
{
    if m > 0 {
        lemma_no_bulb_in_rows(marks, m - 1, r, c);
        lemma_no_bulb_in_row(marks, m - 1, marks[m - 1].len() as int, r, c);
    }
}

/// Every step keeps a valid state valid: the grids go on agreeing, the
/// cursor stays on the board, and every snapshot can still be put back.
pub proof fn law_steps_keep_valid(v: GameView, direction: Direction, operation: PlayerOperation)
    requires
        v.wf(),
    ensures
        v.recomputed().wf(),
        v.started().wf(),
        v.moved(direction).wf(),
        v.operated(operation).wf(),
        v.undone().wf(),
{
    lemma_recomputed_valid(v);
    if v.outcome(operation) is Some {
        let mark = v.outcome(operation)->0;
        assert(marks_fit(v.board, v.marks));
    }
    if v.history.len() > 0 {
        let last = v.history.last();
        let back = GameView {
            marks: last.marks,
            cursor: last.cursor,
            history: v.history.drop_last(),
            ..v
        };
        assert(marks_fit(v.board, last.marks));
        assert forall|k: int| 0 <= k < back.history.len() implies marks_fit(
            back.board,
            (#[trigger] back.history[k]).marks,
        ) && cursor_on(back.board, back.history[k].cursor) by {
            assert(back.history[k] == v.history[k]);
        }
        lemma_recomputed_valid(GameView { light: back.light, remain: back.remain, ..back });
    }
}

/// Recomputing needs only marks that fit the board, and leaves grids that
/// agree.
proof fn lemma_recomputed_valid(v: GameView)
    requires
        marks_fit(v.board, v.marks),
        is_grid(v.board, v.rows(), v.cols()),
        v.rows() + v.cols() <= MAX_SPAN,
        v.rows() > 0 ==> v.cols() > 0,
        forall|r: int, c: int|
            in_grid(v.rows(), v.cols(), r, c) ==> (#[trigger] v.board[r][c] matches CellType::Target(
                n,
            ) ==> n <= MAX_CLUE),
        cursor_on(v.board, v.cursor),
        restorable(v.board, v.history),
    ensures
        v.recomputed().wf(),
{
}

} // verus!
