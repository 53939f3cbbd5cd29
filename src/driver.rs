use vstd::prelude::*;
use crate::cell::{copy_status, Status, Value};
use crate::grid::{lookup, Cells, Grid};
use crate::pos::Pos;
use crate::resolve::{all_ready, fits_i64, parse_formula, resolve_cell, span_positions, step, sum_over};

verus! {

/// How many passes `resolve_grid` makes.
pub const PASS_BUDGET: usize = 10;

/// One pass: every cell takes one step, each read against the grid as it was before
/// the pass.
pub open spec fn pass(g: Cells) -> Cells {
    Seq::new(g.len(), |y: int| Seq::new(g[y].len(), |x: int| step(g, g[y][x])))
}

/// The grid after `n` passes.
pub open spec fn passes(g: Cells, n: nat) -> Cells
    decreases n,
{
    if n == 0 {
        g
    } else {
        passes(pass(g), (n - 1) as nat)
    }
}

/// Makes one pass over `grid`: each pending cell takes one step, read against a
/// snapshot taken before the pass.
pub fn resolve_pass(grid: &mut Grid)
    ensures
        final(grid).cells() == pass(old(grid).cells()),
        final(grid).width == old(grid).width,
        final(grid).height == old(grid).height,
{
    let snapshot = grid.snapshot();
    let ghost g = snapshot.cells();
    let mut rows: Vec<Vec<Status>> = Vec::new();
    let mut y: usize = 0;
    while y < snapshot.rows.len()
        invariant
            g == snapshot.cells(),
            y <= g.len(),
            rows@.len() == y,
            forall|j: int| 0 <= j < y ==> (#[trigger] rows@[j])@ == pass(g)[j],
        decreases g.len() - y,
    {
        let src = &snapshot.rows[y];
        let mut row: Vec<Status> = Vec::new();
        let mut x: usize = 0;
        while x < src.len()
            invariant
                g == snapshot.cells(),
                y < g.len(),
                src@ == g[y as int],
                x <= src@.len(),
                row@ == pass(g)[y as int].subrange(0, x as int),
            decreases src@.len() - x,
        {
            let mut status = copy_status(&src[x]);
            if let Status::Pending(_) = &status {
                resolve_cell(&snapshot, &mut status);
            }
            row.push(status);
            assert(row@ =~= pass(g)[y as int].subrange(0, x as int + 1));
            x = x + 1;
        }
        assert(row@ =~= pass(g)[y as int]);
        rows.push(row);
        y = y + 1;
    }
    grid.rows = rows;
    assert(grid.cells() =~= pass(g));
}

/// Makes `n` passes over `grid`.
pub fn resolve_passes(grid: &mut Grid, n: usize)
    ensures
        final(grid).cells() == passes(old(grid).cells(), n as nat),
        final(grid).width == old(grid).width,
        final(grid).height == old(grid).height,
{
    let ghost g0 = grid.cells();
    let mut i: usize = 0;
    while i < n
        invariant
            i <= n,
            passes(g0, n as nat) == passes(grid.cells(), (n - i) as nat),
            grid.width == old(grid).width,
            grid.height == old(grid).height,
        decreases n - i,
    {
        resolve_pass(grid);
        i = i + 1;
    }
}

/// Resolves `grid` with the fixed pass budget.
pub fn resolve_grid(grid: &mut Grid)
    ensures
        final(grid).cells() == passes(old(grid).cells(), PASS_BUDGET as nat),
        final(grid).width == old(grid).width,
        final(grid).height == old(grid).height,
{
    resolve_passes(grid, PASS_BUDGET);
}

/// A pass keeps the shape of the grid: the same positions hold a status.
pub proof fn lemma_pass_shape(g: Cells, p: Pos)
    ensures
        lookup(pass(g), p) is Some <==> lookup(g, p) is Some,
        lookup(g, p) matches Some(s) ==> lookup(pass(g), p) == Some(step(g, s)),
{
}

/// Passes compose: `k + j` passes are `j` passes after `k` passes.
pub proof fn lemma_passes_add(g: Cells, k: nat, j: nat)
    ensures
        passes(g, k + j) == passes(passes(g, k), j),
    decreases k,
{
    if k > 0 {
        lemma_passes_add(pass(g), (k - 1) as nat, j);
        assert((k + j - 1) as nat == (k - 1) as nat + j);
    }
}

/// A cell that is finished or empty is left as it is by every later pass.
pub proof fn lemma_terminal_stays(g: Cells, n: nat, p: Pos)
    requires
        lookup(g, p) matches Some(s) && s.is_terminal(),
    ensures
        lookup(passes(g, n), p) == lookup(g, p),
    decreases n,
{
    if n > 0 {
        lemma_pass_shape(g, p);
        lemma_terminal_stays(pass(g), (n - 1) as nat, p);
    }
}

/// Progress never goes back: once a cell is finished or empty after `k` passes, it is
/// the same after any larger number of passes.
pub proof fn lemma_no_regress(g: Cells, k: nat, m: nat, p: Pos)
    requires
        k <= m,
        lookup(passes(g, k), p) matches Some(s) && s.is_terminal(),
    ensures
        lookup(passes(g, m), p) == lookup(passes(g, k), p),
{
    lemma_passes_add(g, k, (m - k) as nat);
    assert(k + (m - k) as nat == m);
    lemma_terminal_stays(passes(g, k), (m - k) as nat, p);
}

/// A reference to a finished number takes on the status of its target in the next
/// pass, and the target keeps it.
pub proof fn lemma_reference_copy(g: Cells, k: nat, a: Pos, b: Pos)
    requires
        lookup(passes(g, k), a) matches Some(Status::Pending(c)) && c.value == Some(
            Value::Reference(b),
        ),
        lookup(passes(g, k), b) matches Some(Status::Finished(c)) && c.value matches Some(
            Value::Number(_),
        ),
    ensures
        lookup(passes(g, k + 1), a) == lookup(passes(g, k), b),
        lookup(passes(g, k + 1), b) == lookup(passes(g, k), b),
{
    let h = passes(g, k);
    lemma_passes_add(g, k, 1);
    assert(passes(h, 1) == passes(pass(h), 0));
    lemma_pass_shape(h, a);
    lemma_pass_shape(passes(g, k), b);
}

/// A sum over a rectangle whose cells are all finished numbers finishes in the next
/// pass with their arithmetic sum, where that sum fits a number.
pub proof fn lemma_sum_finishes(g: Cells, p: Pos, from: Pos, to: Pos)
    requires
        lookup(g, p) matches Some(Status::Pending(c)) && c.value == Some(
            Value::Aggregate(from, to),
        ),
        forall|i: int|
            0 <= i < span_positions(from, to).len() ==> (lookup(
                g,
                #[trigger] span_positions(from, to)[i],
            ) matches Some(Status::Finished(c)) && c.value matches Some(Value::Number(_))),
        fits_i64(sum_over(g, span_positions(from, to))),
    ensures
        lookup(pass(g), p) matches Some(Status::Finished(c)) && c.value == Some(
            Value::Number(sum_over(g, span_positions(from, to)) as i64),
        ),
{
    lemma_pass_shape(g, p);
    assert(all_ready(g, span_positions(from, to)));
}

/// A pending cell that no pass changes stays as it is through any number of passes.
proof fn lemma_stuck(g: Cells, n: nat, p: Pos)
    requires
        lookup(g, p) matches Some(s) && forall|h: Cells|
            #![trigger step(h, s)]
            (forall|q: Pos| #[trigger] lookup(h, q) is Some <==> lookup(g, q) is Some) ==> step(
                h,
                s,
            ) == s,
    ensures
        lookup(passes(g, n), p) == lookup(g, p),
    decreases n,
{
    if n > 0 {
        let s = lookup(g, p).unwrap();
        lemma_pass_shape(g, p);
        assert forall|q: Pos| #[trigger] lookup(pass(g), q) is Some <==> lookup(g, q) is Some by {
            lemma_pass_shape(g, q);
        }
        assert forall|h: Cells|
            #![trigger step(h, s)]
            (forall|q: Pos| #[trigger] lookup(h, q) is Some <==> lookup(pass(g), q) is Some)
                implies step(h, s) == s by {
            assert forall|q: Pos| #[trigger] lookup(h, q) is Some <==> lookup(g, q) is Some by {
                lemma_pass_shape(g, q);
            }
        }
        lemma_stuck(pass(g), (n - 1) as nat, p);
    }
}

/// A reference to a position that the grid does not hold stays pending, unchanged,
/// through any number of passes.
pub proof fn lemma_missing_reference_stays(g: Cells, n: nat, a: Pos, b: Pos)
    requires
        lookup(g, a) matches Some(Status::Pending(c)) && c.value == Some(Value::Reference(b)),
        lookup(g, b) is None,
    ensures
        lookup(passes(g, n), a) == lookup(g, a),
{
    let s = lookup(g, a).unwrap();
    assert forall|h: Cells|
        #![trigger step(h, s)]
        (forall|q: Pos| #[trigger] lookup(h, q) is Some <==> lookup(g, q) is Some) implies step(
            h,
            s,
        ) == s by {
        assert(lookup(h, b) is Some <==> lookup(g, b) is Some);
    }
    lemma_stuck(g, n, a);
}

/// A pending text that is no well-formed formula stays pending, unchanged, through any
/// number of passes.
pub proof fn lemma_malformed_stays(g: Cells, n: nat, a: Pos)
    requires
        lookup(g, a) matches Some(Status::Pending(c)) && c.value matches Some(Value::Text(t))
            && parse_formula(t@) is None,
    ensures
        lookup(passes(g, n), a) == lookup(g, a),
{
    lemma_stuck(g, n, a);
}

} // verus!
