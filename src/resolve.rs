use vstd::prelude::*;
use crate::cell::{copy_status, with_value, Cell, Status, Value};
use crate::grid::{lookup, Cells, Grid};
use crate::pos::{pos_from_chars, pos_lit, span_from_chars, span_lit, Pos};
use crate::text::{chars_of, find, find_char, lemma_find};
use vstd::seq_lib::{to_multiset_build, to_multiset_contains, to_multiset_len, to_multiset_remove};
use vstd::slice::slice_subrange;

verus! {

/// The positions of row `y` from column `x0` to column `x1`, both included.
pub open spec fn row_positions(y: int, x0: int, x1: int) -> Seq<Pos> {
    Seq::new(if x1 >= x0 { (x1 - x0 + 1) as nat } else { 0 }, |i: int| Pos { x: (x0 + i) as u32, y: y as u32 })
}

/// The positions of the rectangle from `from` to `to`, rows up to `y`, row by row.
pub open spec fn rows_upto(from: Pos, to: Pos, y: int) -> Seq<Pos>
    decreases y - from.y + 1,
{
    if y < from.y {
        Seq::empty()
    } else {
        rows_upto(from, to, y - 1) + row_positions(y, from.x as int, to.x as int)
    }
}

/// The positions of the rectangle from `from` to `to`, both corners included, row by row.
pub open spec fn span_positions(from: Pos, to: Pos) -> Seq<Pos> {
    rows_upto(from, to, to.y as int)
}

/// Every position of the rectangle between the corners of `span`, row by row.
pub fn list_from_span(span: (Pos, Pos)) -> (r: Vec<Pos>)
    ensures
        r@ == span_positions(span.0, span.1),
{
    let (from, to) = span;
    let mut result: Vec<Pos> = Vec::new();
    let mut y: u64 = from.y as u64;
    while y <= to.y as u64
        invariant
            from.y <= y,
            y <= to.y + 1 || y == from.y,
            result@ == rows_upto(from, to, y as int - 1),
        decreases to.y + 1 - y,
    {
        let ghost base = result@;
        let mut x: u64 = from.x as u64;
        while x <= to.x as u64
            invariant
                from.x <= x,
                x <= to.x + 1 || x == from.x,
                y <= to.y,
                result@ == base + row_positions(y as int, from.x as int, to.x as int).subrange(
                    0,
                    x - from.x,
                ),
            decreases to.x + 1 - x,
        {
            result.push(Pos { x: x as u32, y: y as u32 });
            assert(result@ =~= base + row_positions(y as int, from.x as int, to.x as int).subrange(
                0,
                x + 1 - from.x,
            ));
            x = x + 1;
        }
        assert(row_positions(y as int, from.x as int, to.x as int).subrange(0, x - from.x)
            =~= row_positions(y as int, from.x as int, to.x as int));
        assert(result@ == rows_upto(from, to, y as int));
        y = y + 1;
    }
    result
}

/// The formula that the text `t` of a pending cell writes: a position literal, a span
/// literal, or `Sum(` around a span literal; the first closing bracket or parenthesis
/// ends it.
pub open spec fn parse_formula(t: Seq<char>) -> Option<Value> {
    if t.len() > 0 && t[0] == '[' {
        match find(t, ']') {
            Some(i) => match pos_lit(t.subrange(0, i + 1)) {
                Some(p) => Some(Value::Reference(p)),
                None => None,
            },
            None => None,
        }
    } else if t.len() >= 5 && t[0] == 'S' && t[1] == 'p' && t[2] == 'a' && t[3] == 'n' && t[4]
        == '(' {
        match find(t, ')') {
            Some(i) => match span_lit(t.subrange(0, i + 1)) {
                Some((a, b)) => Some(Value::Range(a, b)),
                None => None,
            },
            None => None,
        }
    } else if t.len() >= 4 && t[0] == 'S' && t[1] == 'u' && t[2] == 'm' && t[3] == '(' {
        match find(t, ')') {
            Some(i) => if i + 1 >= 4 {
                match span_lit(t.subrange(4, i + 1)) {
                    Some((a, b)) => Some(Value::Aggregate(a, b)),
                    None => None,
                }
            } else {
                None
            },
            None => None,
        }
    } else {
        None
    }
}

pub fn parse_formula_chars(t: &[char]) -> (r: Option<Value>)
    ensures
        r == parse_formula(t@),
{
    let n = t.len();
    if n > 0 && t[0] == '[' {
        match find_char(t, ']') {
            Some(i) => {
                proof {
                    lemma_find(t@, ']');
                }
                match pos_from_chars(slice_subrange(t, 0, i + 1)) {
                    Some(p) => Some(Value::Reference(p)),
                    None => None,
                }
            },
            None => None,
        }
    } else if n >= 5 && t[0] == 'S' && t[1] == 'p' && t[2] == 'a' && t[3] == 'n' && t[4] == '(' {
        match find_char(t, ')') {
            Some(i) => {
                proof {
                    lemma_find(t@, ')');
                }
                match span_from_chars(slice_subrange(t, 0, i + 1)) {
                    Some((a, b)) => Some(Value::Range(a, b)),
                    None => None,
                }
            },
            None => None,
        }
    } else if n >= 4 && t[0] == 'S' && t[1] == 'u' && t[2] == 'm' && t[3] == '(' {
        match find_char(t, ')') {
            Some(i) => {
                proof {
                    lemma_find(t@, ')');
                }
                if i + 1 >= 4 {
                    match span_from_chars(slice_subrange(t, 4, i + 1)) {
                        Some((a, b)) => Some(Value::Aggregate(a, b)),
                        None => None,
                    }
                } else {
                    None
                }
            },
            None => None,
        }
    } else {
        None
    }
}

/// What the status `s` adds to a sum: its number where it is a finished number, else
/// nothing.
pub open spec fn contribution(s: Option<Status>) -> int {
    match s {
        Some(Status::Finished(c)) => match c.value {
            Some(Value::Number(n)) => n as int,
            _ => 0,
        },
        _ => 0,
    }
}

/// The sum of the contributions of the positions `ps` in `g`.
pub open spec fn sum_over(g: Cells, ps: Seq<Pos>) -> int
    decreases ps.len(),
{
    if ps.len() == 0 {
        0
    } else {
        sum_over(g, ps.drop_last()) + contribution(lookup(g, ps.last()))
    }
}

proof fn lemma_sum_remove(g: Cells, ps: Seq<Pos>, i: int)
    requires
        0 <= i < ps.len(),
    ensures
        sum_over(g, ps) == sum_over(g, ps.remove(i)) + contribution(lookup(g, ps[i])),
    decreases ps.len(),
{
    if i == ps.len() - 1 {
        assert(ps.remove(i) =~= ps.drop_last());
    } else {
        lemma_sum_remove(g, ps.drop_last(), i);
        assert(ps.remove(i).drop_last() =~= ps.drop_last().remove(i));
    }
}

/// A sum over positions does not depend on the order in which they are visited: two
/// sequences that hold the same positions, as often each, have the same sum.
pub proof fn lemma_sum_order_free(g: Cells, ps: Seq<Pos>, qs: Seq<Pos>)
    requires
        ps.to_multiset() == qs.to_multiset(),
    ensures
        sum_over(g, ps) == sum_over(g, qs),
    decreases ps.len(),
{
    broadcast use vstd::multiset::group_multiset_axioms;

    to_multiset_len(ps);
    to_multiset_len(qs);
    if ps.len() > 0 {
        let x = ps.last();
        let rest = ps.drop_last();
        assert(ps =~= rest.push(x));
        to_multiset_build(rest, x);
        to_multiset_contains(qs, x);
        let i = choose|i: int| 0 <= i < qs.len() && qs[i] == x;
        to_multiset_remove(qs, i);
        assert(rest.to_multiset() =~= qs.remove(i).to_multiset());
        lemma_sum_order_free(g, rest, qs.remove(i));
        lemma_sum_remove(g, qs, i);
    }
}

/// No position of `ps` is pending in `g`.
pub open spec fn all_ready(g: Cells, ps: Seq<Pos>) -> bool {
    forall|i: int| 0 <= i < ps.len() ==> !(lookup(g, #[trigger] ps[i]) matches Some(Status::Pending(_)))
}

pub open spec fn fits_i64(n: int) -> bool {
    i64::MIN <= n <= i64::MAX
}

/// One resolution step of the status `s`, read against the grid `g`.
pub open spec fn step(g: Cells, s: Status) -> Status {
    match s {
        Status::Pending(c) => match c.value {
            Some(Value::Text(t)) => match parse_formula(t@) {
                Some(v) => Status::Pending(Cell { value: Some(v), ..c }),
                None => s,
            },
            Some(Value::Reference(p)) => match lookup(g, p) {
                Some(target) => target,
                None => s,
            },
            Some(Value::Aggregate(a, b)) => {
                let ps = span_positions(a, b);
                if all_ready(g, ps) && fits_i64(sum_over(g, ps)) {
                    Status::Finished(Cell { value: Some(Value::Number(sum_over(g, ps) as i64)), ..c })
                } else {
                    s
                }
            },
            _ => s,
        },
        _ => s,
    }
}

/// Advances a pending cell by one step, read against the snapshot `context`; any other
/// status stays as it is.
pub fn resolve_cell(context: &Grid, pending_cell: &mut Status)
    ensures
        *final(pending_cell) == step(context.cells(), *old(pending_cell)),
{
    let updated = match &*pending_cell {
        Status::Pending(cell) => match &cell.value {
            Some(Value::Text(content)) => {
                let chars = chars_of(content.as_str());
                match parse_formula_chars(chars.as_slice()) {
                    Some(v) => Some(Status::Pending(with_value(cell, Some(v)))),
                    None => None,
                }
            },
            Some(Value::Reference(p)) => match context.get(*p) {
                Some(target) => Some(copy_status(target)),
                None => None,
            },
            Some(Value::Aggregate(a, b)) => {
                let ps = list_from_span((*a, *b));
                let ghost g = context.cells();
                let mut ready = true;
                let mut acc: i128 = 0;
                let mut i: usize = 0;
                while i < ps.len()
                    invariant
                        g == context.cells(),
                        i <= ps@.len(),
                        ready == all_ready(g, ps@.subrange(0, i as int)),
                        acc == sum_over(g, ps@.subrange(0, i as int)),
                        -(i as int) * 0x8000_0000_0000_0000 <= acc <= (i as int) * 0x7fff_ffff_ffff_ffff,
                    decreases ps@.len() - i,
                {
                    let ghost prefix = ps@.subrange(0, i as int);
                    assert(ps@.subrange(0, i as int + 1).drop_last() =~= prefix);
                    match context.get(ps[i]) {
                        Some(Status::Finished(c)) => match &c.value {
                            Some(Value::Number(n)) => {
                                acc = acc + *n as i128;
                            },
                            _ => {},
                        },
                        Some(Status::Pending(_)) => {
                            ready = false;
                        },
                        _ => {},
                    }
                    assert(ready == all_ready(g, ps@.subrange(0, i as int + 1)));
                    i = i + 1;
                }
                assert(ps@.subrange(0, ps@.len() as int) =~= ps@);
                if ready && i64::MIN as i128 <= acc && acc <= i64::MAX as i128 {
                    Some(Status::Finished(with_value(cell, Some(Value::Number(acc as i64)))))
                } else {
                    None
                }
            },
            _ => None,
        },
        _ => None,
    };
    if let Some(s) = updated {
        *pending_cell = s;
    }
}

} // verus!
