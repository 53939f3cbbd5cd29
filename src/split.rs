use vstd::prelude::*;
use crate::text::{chars_of, find, find_char, lemma_find, string_of};
use vstd::slice::slice_subrange;

verus! {

/// The pieces of `s` between occurrences of `c`; there is always at least one.
pub open spec fn split(s: Seq<char>, c: char) -> Seq<Seq<char>>
    decreases s.len(),
{
    match find(s, c) {
        Some(k) => if 0 <= k < s.len() {
            seq![s.subrange(0, k)] + split(s.subrange(k + 1, s.len() as int), c)
        } else {
            seq![s]
        },
        None => seq![s],
    }
}

/// `s` without one trailing carriage return.
pub open spec fn strip_cr(s: Seq<char>) -> Seq<char> {
    if s.len() > 0 && s.last() == '\r' {
        s.drop_last()
    } else {
        s
    }
}

/// The lines of `s`, as `str::lines` gives them: split at line feeds, a final empty
/// line dropped, a carriage return at the end of each line dropped.
pub open spec fn lines_of(s: Seq<char>) -> Seq<Seq<char>> {
    if s.len() == 0 {
        Seq::empty()
    } else {
        let parts = split(s, '\n');
        let parts = if s.last() == '\n' {
            parts.drop_last()
        } else {
            parts
        };
        parts.map_values(|l: Seq<char>| strip_cr(l))
    }
}

/// The raw cell texts of `text`: one row per line, one field per separator.
pub open spec fn grid_fields(text: Seq<char>, separator: char) -> Seq<Seq<Seq<char>>> {
    lines_of(text).map_values(|l: Seq<char>| split(l, separator))
}

pub open spec fn views(v: Seq<String>) -> Seq<Seq<char>> {
    v.map_values(|s: String| s@)
}

fn split_chars(s: &[char], c: char) -> (r: Vec<String>)
    ensures
        views(r@) == split(s@, c),
{
    let mut pieces: Vec<String> = Vec::new();
    let mut rest = s;
    loop
        invariant
            views(pieces@) + split(rest@, c) == split(s@, c),
        decreases rest@.len(),
    {
        match find_char(rest, c) {
            Some(k) => {
                proof {
                    lemma_find(rest@, c);
                }
                let len = rest.len();
                assert(k < len);
                let head = slice_subrange(rest, 0, k);
                let ghost old_pieces = pieces@;
                pieces.push(string_of(head));
                assert(views(pieces@) =~= views(old_pieces) + seq![head@]);
                let tail = slice_subrange(rest, k + 1, len);
                assert(split(rest@, c) == seq![head@] + split(tail@, c));
                assert(views(pieces@) + split(tail@, c) =~= views(old_pieces) + split(rest@, c));
                rest = tail;
            },
            None => {
                let ghost old_pieces = pieces@;
                pieces.push(string_of(rest));
                assert(views(pieces@) =~= views(old_pieces) + split(rest@, c));
                return pieces;
            },
        }
    }
}

/// The raw cell texts of `text`, one row per line and one field per `separator`.
pub fn split_fields(text: &str, separator: char) -> (r: Vec<Vec<String>>)
    ensures
        r@.len() == grid_fields(text@, separator).len(),
        forall|y: int|
            0 <= y < r@.len() ==> views(#[trigger] r@[y]@) == grid_fields(text@, separator)[y],
{
    let chars = chars_of(text);
    let mut rows: Vec<Vec<String>> = Vec::new();
    if chars.len() == 0 {
        return rows;
    }
    let parts = split_chars(chars.as_slice(), '\n');
    let ghost lines = lines_of(text@);
    let n = if chars[chars.len() - 1] == '\n' {
        parts.len() - 1
    } else {
        parts.len()
    };
    assert(split(text@, '\n').len() >= 1) by {
        reveal_with_fuel(split, 1);
    }
    assert(lines.len() == n);
    let mut y: usize = 0;
    while y < n
        invariant
            y <= n,
            n <= parts@.len(),
            lines == lines_of(text@),
            lines.len() == n,
            views(parts@) == split(text@, '\n'),
            text@.len() > 0,
            rows@.len() == y,
            forall|j: int|
                0 <= j < y ==> views(#[trigger] rows@[j]@) == grid_fields(text@, separator)[j],
        decreases n - y,
    {
        let line = chars_of(parts[y].as_str());
        let len = line.len();
        let body = if len > 0 && line[len - 1] == '\r' {
            slice_subrange(line.as_slice(), 0, len - 1)
        } else {
            line.as_slice()
        };
        assert(body@ =~= lines[y as int]);
        rows.push(split_chars(body, separator));
        y = y + 1;
    }
    rows
}

} // verus!
