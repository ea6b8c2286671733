//! Illumination: which bulbs shine on which cells.
//!
//! A bulb shines along its row and its column, both ways, up to the first
//! wall. The level of a cell is the number of bulbs that shine on it.

use vstd::prelude::*;
use crate::types::{LightState, PlayerObject, MAX_LEVEL};
use crate::grid::{grid_view, is_grid, in_grid, width, put, lemma_grid_view};
use crate::puzzle::MAX_SPAN;
use crate::game::Game;

verus! {

/// The cell `(r, c)` is a wall.
pub open spec fn wall_at(marks: Seq<Seq<PlayerObject>>, r: int, c: int) -> bool {
    marks[r][c] is IsWall
}

/// The cell `(r, c)` holds a bulb.
pub open spec fn bulb_at(marks: Seq<Seq<PlayerObject>>, r: int, c: int) -> bool {
    marks[r][c] is Lightbulb
}

/// A bulb at `(br, bc)` would shine on `(r, c)`: the two cells differ, lie
/// on one row or one column, and no wall stands on the stretch from one to
/// the other, ends included.
pub open spec fn shines_on(marks: Seq<Seq<PlayerObject>>, br: int, bc: int, r: int, c: int) -> bool {
    ||| br == r && bc != c && forall|j: int|
        (bc <= j <= c || c <= j <= bc) ==> !#[trigger] wall_at(marks, r, j)
    ||| bc == c && br != r && forall|i: int|
        (br <= i <= r || r <= i <= br) ==> !#[trigger] wall_at(marks, i, c)
}

/// Number of bulbs among the first `n` cells of row `i` that shine on `(r, c)`.
pub open spec fn bulbs_in_row(marks: Seq<Seq<PlayerObject>>, i: int, n: int, r: int, c: int) -> nat
    decreases n,
{
    if n <= 0 {
        0
    } else {
        bulbs_in_row(marks, i, n - 1, r, c) + if bulb_at(marks, i, n - 1) && shines_on(
            marks,
            i,
            n - 1,
            r,
            c,
        ) {
            1nat
        } else {
            0nat
        }
    }
}

/// Number of bulbs in the first `m` rows that shine on `(r, c)`.
pub open spec fn bulbs_in_rows(marks: Seq<Seq<PlayerObject>>, m: int, r: int, c: int) -> nat
    decreases m,
{
    if m <= 0 {
        0
    } else {
        bulbs_in_rows(marks, m - 1, r, c) + bulbs_in_row(
            marks,
            m - 1,
            marks[m - 1].len() as int,
            r,
            c,
        )
    }
}

/// Number of bulbs on the board that shine on `(r, c)`.
pub open spec fn bulbs_seeing(marks: Seq<Seq<PlayerObject>>, r: int, c: int) -> nat {
    bulbs_in_rows(marks, marks.len() as int, r, c)
}

/// Illumination of `(r, c)` under the given marks: a wall is a wall, a cell
/// that holds a bulb is at the maximum level, any other cell is lit at the
/// number of bulbs that shine on it, and dark if there is none.
pub open spec fn light_of(marks: Seq<Seq<PlayerObject>>, r: int, c: int) -> LightState {
    if wall_at(marks, r, c) {
        LightState::IsWall
    } else if bulb_at(marks, r, c) {
        LightState::Light(MAX_LEVEL)
    } else if bulbs_seeing(marks, r, c) == 0 {
        LightState::Dark
    } else {
        LightState::Light(bulbs_seeing(marks, r, c) as u8)
    }
}

/// Illumination of the whole board under the given marks.
pub open spec fn light_grid(marks: Seq<Seq<PlayerObject>>) -> Seq<Seq<LightState>> {
    Seq::new(marks.len(), |r: int| Seq::new(marks[r].len(), |c: int| light_of(marks, r, c)))
}

/// Number of bulbs that shine on `(r, c)` among those in the rows before
/// `i` and the first `j` cells of row `i`.
pub open spec fn counted(marks: Seq<Seq<PlayerObject>>, i: int, j: int, r: int, c: int) -> nat {
    bulbs_in_rows(marks, i, r, c) + bulbs_in_row(marks, i, j, r, c)
}

/// The levels once the rays of the bulbs before `(i, j)`, in reading
/// order, have been cast.
pub open spec fn counted_grid(marks: Seq<Seq<PlayerObject>>, i: int, j: int) -> Seq<
    Seq<LightState>,
> {
    Seq::new(
        marks.len(),
        |r: int|
            Seq::new(
                marks[r].len(),
                |c: int|
                    if wall_at(marks, r, c) {
                        LightState::IsWall
                    } else {
                        LightState::Light(counted(marks, i, j, r, c) as u8)
                    },
            ),
    )
}

/// `light` after the four rays of a bulb at `(row, col)`; unchanged if the
/// cell holds no bulb.
pub open spec fn cast_from(
    marks: Seq<Seq<PlayerObject>>,
    light: Seq<Seq<LightState>>,
    row: int,
    col: int,
) -> Seq<Seq<LightState>> {
    if bulb_at(marks, row, col) {
        Seq::new(
            light.len(),
            |r: int|
                Seq::new(
                    light[r].len(),
                    |c: int|
                        if shines_on(marks, row, col, r, c) {
                            light[r][c].brighter()
                        } else {
                            light[r][c]
                        },
                ),
        )
    } else {
        light
    }
}

/// The cells of the cross around `(row, col)` that reaches up to row `top`,
/// down to row `bottom`, left to column `left` and right to column `right`,
/// the centre left out.
pub open spec fn in_cross(
    row: int,
    col: int,
    top: int,
    bottom: int,
    left: int,
    right: int,
    r: int,
    c: int,
) -> bool {
    ||| c == col && (top <= r < row || row < r <= bottom)
    ||| r == row && (left <= c < col || col < c <= right)
}

/// `base` with the cells of that cross one level brighter.
pub open spec fn cross_lit(
    base: Seq<Seq<LightState>>,
    row: int,
    col: int,
    top: int,
    bottom: int,
    left: int,
    right: int,
) -> Seq<Seq<LightState>> {
    Seq::new(
        base.len(),
        |r: int|
            Seq::new(
                base[r].len(),
                |c: int|
                    if in_cross(row, col, top, bottom, left, right, r, c) {
                        base[r][c].brighter()
                    } else {
                        base[r][c]
                    },
            ),
    )
}

/// Only the cell of row `i` that stands in the column of `(r, c)` can shine
/// on it from another row; in its own row every cell but itself can.
pub proof fn lemma_bulbs_in_row_bound(
    marks: Seq<Seq<PlayerObject>>,
    i: int,
    n: int,
    r: int,
    c: int,
)
    requires
        0 <= n,
        0 <= c,
    ensures
        i != r ==> bulbs_in_row(marks, i, n, r, c) <= (if c < n {
            1int
        } else {
            0int
        }),
        i == r ==> bulbs_in_row(marks, i, n, r, c) <= (if c < n {
            n - 1
        } else {
            n
        }),
    decreases n,
{
    if n > 0 {
        lemma_bulbs_in_row_bound(marks, i, n - 1, r, c);
    }
}

/// At most one bulb of each other row, and the rest of its own row, shine
/// on `(r, c)`.
pub proof fn lemma_bulbs_in_rows_bound(
    marks: Seq<Seq<PlayerObject>>,
    m: int,
    cols: int,
    r: int,
    c: int,
)
    requires
        0 <= m <= marks.len(),
        is_grid(marks, marks.len() as int, cols),
        0 <= r,
        0 <= c < cols,
    ensures
        bulbs_in_rows(marks, m, r, c) <= (if r < m {
            (m - 1) + (cols - 1)
        } else {
            m
        }),
    decreases m,
{
    if m > 0 {
        lemma_bulbs_in_rows_bound(marks, m - 1, cols, r, c);
        lemma_bulbs_in_row_bound(marks, m - 1, cols, r, c);
    }
}

/// No count taken on the way exceeds what the rows and columns allow.
pub proof fn lemma_counted_bound(
    marks: Seq<Seq<PlayerObject>>,
    cols: int,
    i: int,
    j: int,
    r: int,
    c: int,
)
    requires
        is_grid(marks, marks.len() as int, cols),
        0 <= i < marks.len(),
        0 <= j <= cols,
        in_grid(marks.len() as int, cols, r, c),
    ensures
        counted(marks, i, j, r, c) <= marks.len() + cols - 2,
{
    lemma_bulbs_in_rows_bound(marks, i, cols, r, c);
    lemma_bulbs_in_row_bound(marks, i, j, r, c);
}

/// The number of bulbs that shine on a cell is at most the number of other
/// cells in its row and its column.
pub proof fn lemma_bulbs_seeing_bound(marks: Seq<Seq<PlayerObject>>, cols: int, r: int, c: int)
    requires
        is_grid(marks, marks.len() as int, cols),
        in_grid(marks.len() as int, cols, r, c),
    ensures
        bulbs_seeing(marks, r, c) <= marks.len() + cols - 2,
{
    lemma_bulbs_in_rows_bound(marks, marks.len() as int, cols, r, c);
}

/// Casting the rays of the cell `(i, j)` takes the levels from what was
/// counted before that cell to what is counted after it, and no level
/// leaves the range of a byte on the way.
pub proof fn lemma_cast_step(marks: Seq<Seq<PlayerObject>>, cols: int, i: int, j: int)
    requires
        is_grid(marks, marks.len() as int, cols),
        marks.len() + cols <= MAX_SPAN,
        in_grid(marks.len() as int, cols, i, j),
    ensures
        cast_from(marks, counted_grid(marks, i, j), i, j) == counted_grid(marks, i, j + 1),
        can_cast(marks, counted_grid(marks, i, j), i, j),
{
    let before = counted_grid(marks, i, j);
    let after = counted_grid(marks, i, j + 1);
    assert forall|r: int, c: int| in_grid(marks.len() as int, cols, r, c) implies counted(
        marks,
        i,
        j,
        r,
        c,
    ) <= u8::MAX && #[trigger] counted(marks, i, j + 1, r, c) <= u8::MAX by {
        lemma_counted_bound(marks, cols, i, j, r, c);
        lemma_counted_bound(marks, cols, i, j + 1, r, c);
    }
    assert forall|r: int, c: int| in_grid(marks.len() as int, cols, r, c) implies #[trigger] cast_from(
        marks,
        before,
        i,
        j,
    )[r][c] == after[r][c] by {
        assert(counted(marks, i, j + 1, r, c) <= u8::MAX);
        assert(shines_on(marks, i, j, r, c) ==> !wall_at(marks, r, c));
    }
    assert(cast_from(marks, before, i, j) =~~= after);
    if bulb_at(marks, i, j) {
        assert forall|r: int, c: int|
            in_grid(marks.len() as int, cols, r, c) && shines_on(marks, i, j, r, c) implies (
        #[trigger] before[r][c] matches LightState::Light(n) ==> n < u8::MAX) by {
            assert(counted(marks, i, j + 1, r, c) <= u8::MAX);
            assert(!wall_at(marks, r, c));
        }
    }
}

/// What was counted at the end of a row is what is counted at the start of
/// the next.
pub proof fn lemma_next_row(marks: Seq<Seq<PlayerObject>>, cols: int, i: int)
    requires
        is_grid(marks, marks.len() as int, cols),
        0 <= i < marks.len(),
    ensures
        counted_grid(marks, i, cols) == counted_grid(marks, i + 1, 0),
{
    assert(counted_grid(marks, i, cols) =~~= counted_grid(marks, i + 1, 0));
}

/// The mark is a wall.
pub(crate) fn is_wall(mark: PlayerObject) -> (b: bool)
    ensures
        b == (mark is IsWall),
{
    match mark {
        PlayerObject::IsWall => true,
        _ => false,
    }
}

/// The mark is a bulb.
pub(crate) fn is_bulb(mark: PlayerObject) -> (b: bool)
    ensures
        b == (mark is Lightbulb),
{
    match mark {
        PlayerObject::Lightbulb => true,
        _ => false,
    }
}

/// The state of a cell on which one more bulb shines.
fn brighten(state: LightState) -> (out: LightState)
    requires
        state matches LightState::Light(n) ==> n < u8::MAX,
    ensures
        out == state.brighter(),
{
    match state {
        LightState::Light(n) => LightState::Light(n + 1),
        LightState::Dark => LightState::Light(1),
        LightState::IsWall => LightState::IsWall,
    }
}

/// What holds while the rays of the bulb at `(row, col)` are cast on the
/// levels `base`: the grids have one size, the bulb is on the board, and
/// no cell it shines on is at the highest level a byte can hold.
pub open spec fn can_cast(
    marks: Seq<Seq<PlayerObject>>,
    base: Seq<Seq<LightState>>,
    row: int,
    col: int,
) -> bool {
    let rows = marks.len() as int;
    let cols = width(marks);
    &&& is_grid(marks, rows, cols)
    &&& is_grid(base, rows, cols)
    &&& in_grid(rows, cols, row, col)
    &&& bulb_at(marks, row, col) ==> forall|r: int, c: int|
        in_grid(rows, cols, r, c) && shines_on(marks, row, col, r, c) ==> (
        #[trigger] base[r][c] matches LightState::Light(n) ==> n < u8::MAX)
}

/// Makes the cell `(r, c)` one level brighter.
fn brighten_at(light: &mut Vec<Vec<LightState>>, r: usize, c: usize)
    requires
        r < old(light).len(),
        c < old(light)[r as int].len(),
        old(light)[r as int][c as int] matches LightState::Light(n) ==> n < u8::MAX,
    ensures
        grid_view(*final(light)) == put(
            grid_view(*old(light)),
            r as int,
            c as int,
            old(light)[r as int][c as int].brighter(),
        ),
{
    let cell = light[r][c];
    light[r][c] = brighten(cell);
    proof {
        lemma_grid_view(*old(light));
        lemma_grid_view(*light);
        assert(grid_view(*light) =~~= put(
            grid_view(*old(light)),
            r as int,
            c as int,
            cell.brighter(),
        ));
    }
}

impl Game {
    /// Casts the four rays of the bulb at `(row, col)`, if the cell holds
    /// one: every cell the bulb shines on becomes one level brighter. The
    /// cell of the bulb itself is left as it is.
    pub(crate) fn update_light_state_cross(
        marks: &Vec<Vec<PlayerObject>>,
        light: &mut Vec<Vec<LightState>>,
        row: usize,
        col: usize,
    )
        requires
            can_cast(grid_view(*marks), grid_view(*old(light)), row as int, col as int),
        ensures
            grid_view(*final(light)) == cast_from(
                grid_view(*marks),
                grid_view(*old(light)),
                row as int,
                col as int,
            ),
    {
        let ghost m = grid_view(*marks);
        let ghost base = grid_view(*light);
        let ghost (ro, co) = (row as int, col as int);
        proof {
            lemma_grid_view(*marks);
            lemma_grid_view(*light);
        }
        if !is_bulb(marks[row][col]) {
            return ;
        }
        let rows = marks.len();
        let cols = marks[row].len();
        assert(grid_view(*light) =~~= cross_lit(base, ro, co, ro, ro, co, co));

        // upwards
        let mut top: usize = row;
        while top > 0 && !is_wall(marks[top - 1][col])
            invariant
                m == grid_view(*marks),
                forall|r: int| 0 <= r < marks.len() ==> (#[trigger] marks[r])@ == m[r],
                can_cast(m, base, ro, co),
                bulb_at(m, ro, co),
                rows == marks.len(),
                cols == width(m),
                ro == row,
                co == col,
                top <= row,
                forall|k: int| top <= k <= ro ==> !#[trigger] wall_at(m, k, co),
                grid_view(*light) == cross_lit(base, ro, co, top as int, ro, co, co),
            decreases top,
        {
            proof {
                lemma_grid_view(*marks);
                lemma_grid_view(*light);
            }
            top = top - 1;
            assert(shines_on(m, ro, co, top as int, co));
            brighten_at(light, top, col);
            assert(grid_view(*light) =~~= cross_lit(base, ro, co, top as int, ro, co, co));
        }

        // downwards
        let mut bottom: usize = row;
        while bottom + 1 < rows && !is_wall(marks[bottom + 1][col])
            invariant
                m == grid_view(*marks),
                forall|r: int| 0 <= r < marks.len() ==> (#[trigger] marks[r])@ == m[r],
                can_cast(m, base, ro, co),
                bulb_at(m, ro, co),
                rows == marks.len(),
                cols == width(m),
                ro == row,
                co == col,
                top <= row <= bottom < rows,
                forall|k: int| top <= k <= bottom ==> !#[trigger] wall_at(m, k, co),
                grid_view(*light) == cross_lit(base, ro, co, top as int, bottom as int, co, co),
            decreases rows - bottom,
        {
            proof {
                lemma_grid_view(*marks);
                lemma_grid_view(*light);
            }
            bottom = bottom + 1;
            assert(shines_on(m, ro, co, bottom as int, co));
            brighten_at(light, bottom, col);
            assert(grid_view(*light) =~~= cross_lit(
                base,
                ro,
                co,
                top as int,
                bottom as int,
                co,
                co,
            ));
        }

        // to the left
        let mut left: usize = col;
        while left > 0 && !is_wall(marks[row][left - 1])
            invariant
                m == grid_view(*marks),
                forall|r: int| 0 <= r < marks.len() ==> (#[trigger] marks[r])@ == m[r],
                can_cast(m, base, ro, co),
                bulb_at(m, ro, co),
                rows == marks.len(),
                cols == width(m),
                ro == row,
                co == col,
                left <= col,
                forall|k: int| left <= k <= co ==> !#[trigger] wall_at(m, ro, k),
                grid_view(*light) == cross_lit(
                    base,
                    ro,
                    co,
                    top as int,
                    bottom as int,
                    left as int,
                    co,
                ),
            decreases left,
        {
            proof {
                lemma_grid_view(*marks);
                lemma_grid_view(*light);
            }
            left = left - 1;
            assert(shines_on(m, ro, co, ro, left as int));
            brighten_at(light, row, left);
            assert(grid_view(*light) =~~= cross_lit(
                base,
                ro,
                co,
                top as int,
                bottom as int,
                left as int,
                co,
            ));
        }

        // to the right
        let mut right: usize = col;
        while right + 1 < cols && !is_wall(marks[row][right + 1])
            invariant
                m == grid_view(*marks),
                forall|r: int| 0 <= r < marks.len() ==> (#[trigger] marks[r])@ == m[r],
                can_cast(m, base, ro, co),
                bulb_at(m, ro, co),
                rows == marks.len(),
                cols == width(m),
                ro == row,
                co == col,
                left <= col <= right < cols,
                forall|k: int| left <= k <= right ==> !#[trigger] wall_at(m, ro, k),
                grid_view(*light) == cross_lit(
                    base,
                    ro,
                    co,
                    top as int,
                    bottom as int,
                    left as int,
                    right as int,
                ),
            decreases cols - right,
        {
            proof {
                lemma_grid_view(*marks);
                lemma_grid_view(*light);
            }
            right = right + 1;
            assert(shines_on(m, ro, co, ro, right as int));
            brighten_at(light, row, right);
            assert(grid_view(*light) =~~= cross_lit(
                base,
                ro,
                co,
                top as int,
                bottom as int,
                left as int,
                right as int,
            ));
        }

        proof {
            // Each ray ended at the edge of the board or before a wall, so
            // the cross is all that the bulb shines on.
            assert(top == 0 || wall_at(m, top - 1, co));
            assert(bottom + 1 == rows || wall_at(m, bottom + 1, co));
            assert(left == 0 || wall_at(m, ro, left - 1));
            assert(right + 1 == cols || wall_at(m, ro, right + 1));
            assert forall|r: int, c: int| in_grid(rows as int, cols as int, r, c) implies in_cross(
                ro,
                co,
                top as int,
                bottom as int,
                left as int,
                right as int,
                r,
                c,
            ) == shines_on(m, ro, co, r, c) by {}
            assert(grid_view(*light) =~~= cast_from(m, base, ro, co));
        }
    }
}

/// The board with every cell that is no wall at level 0.
fn unlit(marks: &Vec<Vec<PlayerObject>>) -> (light: Vec<Vec<LightState>>)
    ensures
        grid_view(light) == counted_grid(grid_view(*marks), 0, 0),
{
    let ghost m = grid_view(*marks);
    proof {
        lemma_grid_view(*marks);
    }
    let mut light: Vec<Vec<LightState>> = Vec::new();
    let mut r: usize = 0;
    while r < marks.len()
        invariant
            r <= marks.len(),
            m == grid_view(*marks),
            forall|k: int| 0 <= k < marks.len() ==> (#[trigger] marks[k])@ == m[k],
            light.len() == r,
            forall|k: int| 0 <= k < r ==> (#[trigger] light[k])@ == counted_grid(m, 0, 0)[k],
        decreases marks.len() - r,
    {
        let mut line: Vec<LightState> = Vec::new();
        let mut c: usize = 0;
        while c < marks[r].len()
            invariant
                r < marks.len(),
                c <= marks[r as int].len(),
                m == grid_view(*marks),
                marks[r as int]@ == m[r as int],
                line.len() == c,
                forall|k: int| 0 <= k < c ==> #[trigger] line[k] == counted_grid(m, 0, 0)[r as int][k],
            decreases marks[r as int].len() - c,
        {
            if is_wall(marks[r][c]) {
                line.push(LightState::IsWall);
            } else {
                line.push(LightState::light(0));
            }
            c += 1;
        }
        assert(line@ =~= counted_grid(m, 0, 0)[r as int]);
        light.push(line);
        r += 1;
    }
    proof {
        lemma_grid_view(light);
        assert(grid_view(light) =~= counted_grid(m, 0, 0));
    }
    light
}

/// The final states: a cell that holds a bulb at the maximum level, a cell
/// left at level 0 dark.
fn settle(marks: &Vec<Vec<PlayerObject>>, counts: &Vec<Vec<LightState>>) -> (light: Vec<
    Vec<LightState>,
>)
    requires
        grid_view(*counts) == counted_grid(grid_view(*marks), marks.len() as int, 0),
        is_grid(grid_view(*marks), marks.len() as int, width(grid_view(*marks))),
        marks.len() + width(grid_view(*marks)) <= MAX_SPAN,
    ensures
        grid_view(light) == light_grid(grid_view(*marks)),
{
    let ghost m = grid_view(*marks);
    let ghost counts_view = grid_view(*counts);
    proof {
        lemma_grid_view(*marks);
        lemma_grid_view(*counts);
    }
    let mut light: Vec<Vec<LightState>> = Vec::new();
    let mut r: usize = 0;
    while r < marks.len()
        invariant
            r <= marks.len(),
            m == grid_view(*marks),
            is_grid(m, marks.len() as int, width(m)),
            marks.len() + width(m) <= MAX_SPAN,
            counts_view == grid_view(*counts),
            counts_view == counted_grid(m, marks.len() as int, 0),
            counts.len() == marks.len(),
            forall|k: int| 0 <= k < marks.len() ==> (#[trigger] marks[k])@ == m[k],
            forall|k: int| 0 <= k < counts.len() ==> (#[trigger] counts[k])@ == counts_view[k],
            light.len() == r,
            forall|k: int| 0 <= k < r ==> (#[trigger] light[k])@ == light_grid(m)[k],
        decreases marks.len() - r,
    {
        let mut line: Vec<LightState> = Vec::new();
        let mut c: usize = 0;
        assert(counts_view[r as int].len() == m[r as int].len());
        while c < marks[r].len()
            invariant
                r < marks.len(),
                c <= marks[r as int].len(),
                m == grid_view(*marks),
                is_grid(m, marks.len() as int, width(m)),
                marks.len() + width(m) <= MAX_SPAN,
                counts_view == counted_grid(m, marks.len() as int, 0),
                marks[r as int]@ == m[r as int],
                counts.len() == marks.len(),
                counts[r as int]@ == counts_view[r as int],
                counts[r as int].len() == marks[r as int].len(),
                line.len() == c,
                forall|k: int| 0 <= k < c ==> #[trigger] line[k] == light_grid(m)[r as int][k],
            decreases marks[r as int].len() - c,
        {
            proof {
                assert(m[r as int].len() == width(m));
                lemma_bulbs_seeing_bound(m, width(m), r as int, c as int);
                assert(counted(m, marks.len() as int, 0, r as int, c as int) == bulbs_seeing(
                    m,
                    r as int,
                    c as int,
                ));
            }
            let state = if is_bulb(marks[r][c]) {
                LightState::light(MAX_LEVEL)
            } else {
                match counts[r][c] {
                    LightState::Light(n) => if n == 0 {
                        LightState::Dark
                    } else {
                        LightState::Light(n)
                    },
                    other => other,
                }
            };
            assert(state == light_of(m, r as int, c as int));
            line.push(state);
            c += 1;
        }
        assert(line@ =~= light_grid(m)[r as int]);
        light.push(line);
        r += 1;
    }
    proof {
        lemma_grid_view(light);
        assert(grid_view(light) =~= light_grid(m));
    }
    light
}

/// The illumination of the board, computed from the marks alone: every
/// cell that is no wall starts at level 0, each bulb casts its four rays,
/// and then bulbs and unreached cells get their final state.
pub(crate) fn propagate(marks: &Vec<Vec<PlayerObject>>) -> (light: Vec<Vec<LightState>>)
    requires
        is_grid(grid_view(*marks), marks.len() as int, width(grid_view(*marks))),
        marks.len() + width(grid_view(*marks)) <= MAX_SPAN,
    ensures
        grid_view(light) == light_grid(grid_view(*marks)),
{
    let ghost m = grid_view(*marks);
    let ghost cols = width(m);
    proof {
        lemma_grid_view(*marks);
    }
    let mut light = unlit(marks);
    let rows = marks.len();
    let mut i: usize = 0;
    while i < rows
        invariant
            i <= rows,
            rows == marks.len(),
            m == grid_view(*marks),
            cols == width(m),
            is_grid(m, rows as int, cols),
            rows + cols <= MAX_SPAN,
            forall|k: int| 0 <= k < marks.len() ==> (#[trigger] marks[k])@ == m[k],
            grid_view(light) == counted_grid(m, i as int, 0),
        decreases rows - i,
    {
        let across = marks[i].len();
        assert(across == cols);
        let mut j: usize = 0;
        while j < across
            invariant
                i < rows,
                j <= across,
                across == cols,
                rows == marks.len(),
                m == grid_view(*marks),
                cols == width(m),
                is_grid(m, rows as int, cols),
                rows + cols <= MAX_SPAN,
                grid_view(light) == counted_grid(m, i as int, j as int),
            decreases across - j,
        {
            proof {
                lemma_cast_step(m, cols, i as int, j as int);
            }
            Game::update_light_state_cross(marks, &mut light, i, j);
            j += 1;
        }
        proof {
            lemma_next_row(m, cols, i as int);
        }
        i += 1;
    }
    settle(marks, &light)
}

} // verus!
