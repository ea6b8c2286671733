//! Rectangular grids: a `Vec` of rows in executable code, a `Seq` of rows
//! in specifications.

use vstd::prelude::*;

verus! {

/// The rows of `g` as sequences.
pub open spec fn grid_view<T>(g: Vec<Vec<T>>) -> Seq<Seq<T>> {
    Seq::new(g.len() as nat, |r: int| g[r]@)
}

/// `g` has `rows` rows of `cols` cells each.
pub open spec fn is_grid<T>(g: Seq<Seq<T>>, rows: int, cols: int) -> bool {
    &&& g.len() == rows
    &&& forall|r: int| 0 <= r < rows ==> (#[trigger] g[r]).len() == cols
}

/// `(r, c)` names a cell of a grid of `rows` by `cols`.
pub open spec fn in_grid(rows: int, cols: int, r: int, c: int) -> bool {
    0 <= r < rows && 0 <= c < cols
}

/// `g` with the cell `(r, c)` replaced by `x`.
pub open spec fn put<T>(g: Seq<Seq<T>>, r: int, c: int, x: T) -> Seq<Seq<T>> {
    g.update(r, g[r].update(c, x))
}

/// Number of columns of a grid: the length of its first row, 0 if it has none.
pub open spec fn width<T>(g: Seq<Seq<T>>) -> int {
    if g.len() > 0 {
        g[0].len() as int
    } else {
        0
    }
}

/// The view of a grid has the rows of the grid, each by its own view.
pub proof fn lemma_grid_view<T>(g: Vec<Vec<T>>)
    ensures
        grid_view(g).len() == g.len(),
        forall|r: int| 0 <= r < g.len() ==> #[trigger] grid_view(g)[r] == g[r]@,
        forall|r: int| 0 <= r < g.len() ==> (#[trigger] g[r])@ == grid_view(g)[r],
{
}

/// A copy of `g`.
pub(crate) fn copy_grid<T: Copy>(g: &Vec<Vec<T>>) -> (out: Vec<Vec<T>>)
    ensures
        grid_view(out) == grid_view(*g),
{
    let mut out: Vec<Vec<T>> = Vec::new();
    let mut r: usize = 0;
    while r < g.len()
        invariant
            r <= g.len(),
            out.len() == r,
            forall|k: int| 0 <= k < r ==> (#[trigger] out[k])@ == g[k]@,
        decreases g.len() - r,
    {
        let mut row: Vec<T> = Vec::new();
        let mut c: usize = 0;
        while c < g[r].len()
            invariant
                r < g.len(),
                c <= g[r as int].len(),
                row.len() == c,
                forall|k: int| 0 <= k < c ==> #[trigger] row[k] == g[r as int][k],
            decreases g[r as int].len() - c,
        {
            row.push(g[r][c]);
            c += 1;
        }
        assert(row@ =~= g[r as int]@);
        out.push(row);
        r += 1;
    }
    assert(grid_view(out) =~= grid_view(*g));
    out
}

} // verus!
