use vstd::prelude::*;
use crate::cell::{classified, copy_status, parse_cell, Status};
use crate::pos::Pos;

verus! {

/// The statuses of a grid, row by row; row `y` holds columns `0 .. len`.
pub type Cells = Seq<Seq<Status>>;

/// The status at `p`, or `None` where the source had no cell there.
pub open spec fn lookup(g: Cells, p: Pos) -> Option<Status> {
    if p.y < g.len() && p.x < g[p.y as int].len() {
        Some(g[p.y as int][p.x as int])
    } else {
        None
    }
}

/// The largest length of a row, and at least one.
pub open spec fn max_width(g: Cells) -> nat
    decreases g.len(),
{
    if g.len() == 0 {
        1
    } else {
        let w = max_width(g.drop_last());
        if g.last().len() > w {
            g.last().len()
        } else {
            w
        }
    }
}

/// A sparse grid of cell statuses and its extent.
pub struct Grid {
    pub rows: Vec<Vec<Status>>,
    pub width: usize,
    pub height: usize,
}

impl Grid {
    pub open spec fn cells(&self) -> Cells {
        self.rows@.map_values(|r: Vec<Status>| r@)
    }

    /// The grid of `rows`, whose extent is one past the largest column and row seen.
    pub fn from_rows(rows: Vec<Vec<Status>>) -> (g: Grid)
        ensures
            g.cells() == rows@.map_values(|r: Vec<Status>| r@),
            g.width == max_width(g.cells()),
            g.height == if rows@.len() == 0 {
                1
            } else {
                rows@.len()
            },
    {
        let mut width: usize = 1;
        let mut i: usize = 0;
        let ghost cells = rows@.map_values(|r: Vec<Status>| r@);
        while i < rows.len()
            invariant
                i <= rows@.len(),
                cells == rows@.map_values(|r: Vec<Status>| r@),
                width == max_width(cells.subrange(0, i as int)),
            decreases rows@.len() - i,
        {
            assert(cells.subrange(0, i as int + 1).drop_last() =~= cells.subrange(0, i as int));
            if rows[i].len() > width {
                width = rows[i].len();
            }
            i = i + 1;
        }
        assert(cells.subrange(0, rows@.len() as int) =~= cells);
        let height = if rows.len() == 0 {
            1
        } else {
            rows.len()
        };
        Grid { rows, width, height }
    }

    /// The status at `p`, where the grid has one.
    pub fn get(&self, p: Pos) -> (r: Option<&Status>)
        ensures
            r matches Some(s) ==> lookup(self.cells(), p) == Some(*s),
            r is None ==> lookup(self.cells(), p) is None,
    {
        let y = p.y as usize;
        let x = p.x as usize;
        if y < self.rows.len() && x < self.rows[y].len() {
            Some(&self.rows[y][x])
        } else {
            None
        }
    }

    /// A structural copy of the grid.
    pub fn snapshot(&self) -> (r: Grid)
        ensures
            r.cells() == self.cells(),
            r.width == self.width,
            r.height == self.height,
    {
        let mut rows: Vec<Vec<Status>> = Vec::new();
        let mut y: usize = 0;
        while y < self.rows.len()
            invariant
                y <= self.rows@.len(),
                rows@.len() == y,
                forall|j: int| 0 <= j < y ==> (#[trigger] rows@[j])@ == self.rows@[j]@,
            decreases self.rows@.len() - y,
        {
            let src = &self.rows[y];
            let mut row: Vec<Status> = Vec::new();
            let mut x: usize = 0;
            while x < src.len()
                invariant
                    x <= src@.len(),
                    row@ == src@.subrange(0, x as int),
                decreases src@.len() - x,
            {
                row.push(copy_status(&src[x]));
                assert(row@ =~= src@.subrange(0, x as int + 1));
                x = x + 1;
            }
            assert(src@.subrange(0, src@.len() as int) =~= src@);
            rows.push(row);
            y = y + 1;
        }
        let r = Grid { rows, width: self.width, height: self.height };
        assert(r.cells() =~= self.cells());
        r
    }
}

/// Builds the grid of the raw cell texts `fields`, row by row; `evaluated` holds, at
/// the same place, the outcome of evaluating each cell's content as an arithmetic
/// expression.
pub fn grid_from_fields(fields: &Vec<Vec<String>>, evaluated: &Vec<Vec<Option<i64>>>) -> (g: Grid)
    requires
        evaluated@.len() == fields@.len(),
        forall|y: int| 0 <= y < fields@.len() ==> (#[trigger] evaluated@[y])@.len() == fields@[y]@.len(),
    ensures
        g.cells().len() == fields@.len(),
        forall|y: int| 0 <= y < fields@.len() ==> (#[trigger] g.cells()[y]).len() == fields@[y]@.len(),
        forall|y: int, x: int|
            0 <= y < fields@.len() && 0 <= x < fields@[y]@.len() ==> classified(
                fields@[y]@[x]@,
                evaluated@[y]@[x],
                #[trigger] g.cells()[y][x],
            ),
        g.width == max_width(g.cells()),
        g.height == if fields@.len() == 0 {
            1
        } else {
            fields@.len()
        },
{
    let mut rows: Vec<Vec<Status>> = Vec::new();
    let mut y: usize = 0;
    while y < fields.len()
        invariant
            evaluated@.len() == fields@.len(),
            forall|y: int| 0 <= y < fields@.len() ==> (#[trigger] evaluated@[y])@.len() == fields@[y]@.len(),
            y <= fields@.len(),
            rows@.len() == y,
            forall|j: int| 0 <= j < y ==> (#[trigger] rows@[j])@.len() == fields@[j]@.len(),
            forall|j: int, x: int|
                0 <= j < y && 0 <= x < fields@[j]@.len() ==> classified(
                    fields@[j]@[x]@,
                    evaluated@[j]@[x],
                    #[trigger] rows@[j]@[x],
                ),
        decreases fields@.len() - y,
    {
        let raw = &fields[y];
        let ev = &evaluated[y];
        let mut row: Vec<Status> = Vec::new();
        let mut x: usize = 0;
        while x < raw.len()
            invariant
                raw@ == fields@[y as int]@,
                ev@ == evaluated@[y as int]@,
                ev@.len() == raw@.len(),
                x <= raw@.len(),
                row@.len() == x,
                forall|i: int| 0 <= i < x ==> classified(raw@[i]@, ev@[i], #[trigger] row@[i]),
            decreases raw@.len() - x,
        {
            row.push(parse_cell(raw[x].as_str(), ev[x]));
            x = x + 1;
        }
        rows.push(row);
        y = y + 1;
    }
    Grid::from_rows(rows)
}

} // verus!
