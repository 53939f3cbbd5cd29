use vstd::prelude::*;
use crate::text::{chars_of, find, find_char, lemma_find, parse_index, parse_index_chars, trim, trim_chars};
use vstd::slice::slice_subrange;

verus! {

/// Exclusive upper bound of each coordinate of a position.
pub const POS_LIMIT: u32 = 20000;

/// A grid coordinate: `x` is the column, `y` the row.
#[derive(Clone, Copy, Debug, PartialEq, Eq, Hash, Structural)]
pub struct Pos {
    pub x: u32,
    pub y: u32,
}

impl Pos {
    pub open spec fn wf(self) -> bool {
        self.x < POS_LIMIT && self.y < POS_LIMIT
    }

    /// The position of column `x`, row `y`.
    pub fn new(x: usize, y: usize) -> (r: Pos)
        requires
            x < POS_LIMIT,
            y < POS_LIMIT,
        ensures
            r.x == x,
            r.y == y,
            r.wf(),
    {
        Pos { x: x as u32, y: y as u32 }
    }
}

/// A coordinate of a position literal: a decimal integer below `POS_LIMIT`, with
/// white space around it.
pub open spec fn coord(s: Seq<char>) -> Option<nat> {
    parse_index(trim(s), POS_LIMIT as nat)
}

/// The position that the literal `[row, column]` writes; `None` where `s` is no such
/// literal.
pub open spec fn pos_lit(s: Seq<char>) -> Option<Pos> {
    if s.len() >= 2 && s[0] == '[' && s.last() == ']' {
        let inner = s.subrange(1, s.len() - 1);
        match find(inner, ',') {
            Some(k) => match (coord(inner.subrange(0, k)), coord(
                inner.subrange(k + 1, inner.len() as int),
            )) {
                (Some(row), Some(col)) => Some(Pos { x: col as u32, y: row as u32 }),
                _ => None,
            },
            None => None,
        }
    } else {
        None
    }
}

pub fn pos_from_chars(s: &[char]) -> (r: Option<Pos>)
    ensures
        r == pos_lit(s@),
        r matches Some(p) ==> p.wf(),
{
    let n = s.len();
    if n < 2 || s[0] != '[' || s[n - 1] != ']' {
        return None;
    }
    let inner = slice_subrange(s, 1, n - 1);
    match find_char(inner, ',') {
        Some(k) => {
            proof {
                lemma_find(inner@, ',');
            }
            let row = parse_index_chars(trim_chars(slice_subrange(inner, 0, k)), POS_LIMIT);
            let col = parse_index_chars(
                trim_chars(slice_subrange(inner, k + 1, inner.len())),
                POS_LIMIT,
            );
            match (row, col) {
                (Some(row), Some(col)) => Some(Pos { x: col, y: row }),
                _ => None,
            }
        },
        None => None,
    }
}

/// `s` begins with the characters `Span(`.
pub open spec fn starts_span(s: Seq<char>) -> bool {
    s.len() >= 5 && s[0] == 'S' && s[1] == 'p' && s[2] == 'a' && s[3] == 'n' && s[4] == '('
}

/// The corners that the literal `Span([r1, c1], [r2, c2])` writes; `None` where `s` is
/// no such literal.
pub open spec fn span_lit(s: Seq<char>) -> Option<(Pos, Pos)> {
    if s.len() >= 6 && starts_span(s) && s.last() == ')' {
        let inner = s.subrange(5, s.len() - 1);
        match find(inner, ']') {
            Some(k) => {
                let rest = trim(inner.subrange(k + 1, inner.len() as int));
                if rest.len() > 0 && rest[0] == ',' {
                    match (pos_lit(inner.subrange(0, k + 1)), pos_lit(trim(rest.drop_first()))) {
                        (Some(a), Some(b)) => Some((a, b)),
                        _ => None,
                    }
                } else {
                    None
                }
            },
            None => None,
        }
    } else {
        None
    }
}

pub fn span_from_chars(s: &[char]) -> (r: Option<(Pos, Pos)>)
    ensures
        r == span_lit(s@),
{
    let n = s.len();
    if n < 6 || s[0] != 'S' || s[1] != 'p' || s[2] != 'a' || s[3] != 'n' || s[4] != '(' || s[n
        - 1] != ')' {
        return None;
    }
    let inner = slice_subrange(s, 5, n - 1);
    match find_char(inner, ']') {
        Some(k) => {
            proof {
                lemma_find(inner@, ']');
            }
            let rest = trim_chars(slice_subrange(inner, k + 1, inner.len()));
            if rest.len() > 0 && rest[0] == ',' {
                let second = slice_subrange(rest, 1, rest.len());
                assert(second@ =~= rest@.drop_first());
                let a = pos_from_chars(slice_subrange(inner, 0, k + 1));
                let b = pos_from_chars(trim_chars(second));
                match (a, b) {
                    (Some(a), Some(b)) => Some((a, b)),
                    _ => None,
                }
            } else {
                None
            }
        },
        None => None,
    }
}

impl Pos {
    /// Reads a position literal `[row, column]`.
    pub fn try_parse(from: &str) -> (r: Option<Pos>)
        ensures
            r == pos_lit(from@),
    {
        let chars = chars_of(from);
        pos_from_chars(chars.as_slice())
    }
}

/// Reads a span literal `Span([r1, c1], [r2, c2])` into its two corners.
pub fn try_parse_span(from: &str) -> (r: Option<(Pos, Pos)>)
    ensures
        r == span_lit(from@),
{
    let chars = chars_of(from);
    span_from_chars(chars.as_slice())
}

} // verus!
