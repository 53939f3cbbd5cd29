use vstd::prelude::*;
use crate::pos::Pos;
use crate::text::{chars_of, find, find_char, string_of, trim, trim_chars};
use vstd::slice::slice_subrange;

verus! {

/// The payload of a cell.
#[derive(Debug, PartialEq, Eq)]
pub enum Value {
    /// A number in fixed-point units; the size of a unit is the caller's choice.
    Number(i64),
    /// A string literal, or the not yet parsed body of a formula.
    Text(String),
    /// A reference to one other cell.
    Reference(Pos),
    /// The rectangle between two corners, both included.
    Range(Pos, Pos),
    /// The sum over the rectangle between two corners, both included.
    Aggregate(Pos, Pos),
}

/// One cell of the source: its raw text, its value and its trailing comment.
#[derive(Debug, PartialEq, Eq)]
pub struct Cell {
    pub original_text: String,
    pub value: Option<Value>,
    pub comment: Option<String>,
}

/// Where one position of the grid stands in its resolution.
#[derive(Debug, PartialEq, Eq)]
pub enum Status {
    /// A marker that stands for no state; no parsed cell holds it.
    Error,
    /// The source cell was blank.
    Empty,
    /// Classified, with a value that is not yet final.
    Pending(Cell),
    /// Fully reduced: no value, a number or a text.
    Finished(Cell),
}

impl Status {
    /// A resolution pass never changes a cell in this state.
    pub open spec fn is_terminal(self) -> bool {
        self is Finished || self is Empty
    }
}

pub fn copy_value(v: &Value) -> (r: Value)
    ensures
        r == *v,
{
    match v {
        Value::Number(n) => Value::Number(*n),
        Value::Text(t) => Value::Text(t.clone()),
        Value::Reference(p) => Value::Reference(*p),
        Value::Range(a, b) => Value::Range(*a, *b),
        Value::Aggregate(a, b) => Value::Aggregate(*a, *b),
    }
}

pub fn copy_text(t: &Option<String>) -> (r: Option<String>)
    ensures
        r == *t,
{
    match t {
        Some(s) => Some(s.clone()),
        None => None,
    }
}

/// A cell with the same text and comment as `c` and the value `value`.
pub fn with_value(c: &Cell, value: Option<Value>) -> (r: Cell)
    ensures
        r == (Cell { value, ..*c }),
{
    Cell { original_text: c.original_text.clone(), value, comment: copy_text(&c.comment) }
}

pub fn copy_cell(c: &Cell) -> (r: Cell)
    ensures
        r == *c,
{
    let value = match &c.value {
        Some(v) => Some(copy_value(v)),
        None => None,
    };
    with_value(c, value)
}

pub fn copy_status(s: &Status) -> (r: Status)
    ensures
        r == *s,
{
    match s {
        Status::Error => Status::Error,
        Status::Empty => Status::Empty,
        Status::Pending(c) => Status::Pending(copy_cell(c)),
        Status::Finished(c) => Status::Finished(copy_cell(c)),
    }
}

/// The content and the comment of a raw cell text, once both are trimmed;
/// `None` where the text is blank.
pub open spec fn split_parts(raw: Seq<char>) -> Option<(Seq<char>, Option<Seq<char>>)> {
    let t = trim(raw);
    if t.len() == 0 {
        None
    } else {
        match find(t, '#') {
            Some(k) => Some((trim(t.subrange(0, k)), Some(trim(t.subrange(k + 1, t.len() as int))))),
            None => Some((t, None)),
        }
    }
}

/// Splits a raw cell text at its first `#` into trimmed content and comment;
/// `None` where the text is blank.
pub fn cell_parts(raw: &str) -> (r: Option<(String, Option<String>)>)
    ensures
        r matches Some(p) ==> split_parts(raw@) == Some((p.0@, match p.1 {
            Some(c) => Some(c@),
            None => None::<Seq<char>>,
        })),
        r is None ==> split_parts(raw@) is None,
{
    let chars = chars_of(raw);
    let t = trim_chars(chars.as_slice());
    if t.len() == 0 {
        return None;
    }
    match find_char(t, '#') {
        Some(k) => {
            proof {
                crate::text::lemma_find(t@, '#');
            }
            let content = trim_chars(slice_subrange(t, 0, k));
            let comment = trim_chars(slice_subrange(t, k + 1, t.len()));
            Some((string_of(content), Some(string_of(comment))))
        },
        None => Some((string_of(t), None)),
    }
}

pub open spec fn opt_view(s: Option<String>) -> Option<Seq<char>> {
    match s {
        Some(c) => Some(c@),
        None => None,
    }
}

/// `c` keeps the raw text and the comment that it was parsed from.
pub open spec fn cell_from(c: Cell, raw: Seq<char>, comment: Option<Seq<char>>) -> bool {
    c.original_text@ == raw && opt_view(c.comment) == comment
}

pub open spec fn is_text(v: Option<Value>, content: Seq<char>) -> bool {
    v matches Some(Value::Text(t)) && t@ == content
}

/// What a raw cell text becomes, given the outcome of evaluating its content as an
/// arithmetic expression: blank text is empty; blank content has no value; content
/// that evaluates is a number; content without `[` is a text; the rest is a formula
/// that waits for resolution.
pub open spec fn classified(raw: Seq<char>, evaluated: Option<i64>, r: Status) -> bool {
    match split_parts(raw) {
        None => r is Empty,
        Some((content, comment)) => {
            if content.len() == 0 {
                r matches Status::Finished(c) && cell_from(c, raw, comment) && c.value is None
            } else if evaluated is Some {
                r matches Status::Finished(c) && cell_from(c, raw, comment) && c.value == Some(
                    Value::Number(evaluated.unwrap()),
                )
            } else if find(content, '[') is None {
                r matches Status::Finished(c) && cell_from(c, raw, comment) && is_text(
                    c.value,
                    content,
                )
            } else {
                r matches Status::Pending(c) && cell_from(c, raw, comment) && is_text(
                    c.value,
                    content,
                )
            }
        },
    }
}

/// Classifies one raw cell text. `evaluated` is the outcome of evaluating the content
/// that `cell_parts` gives for `raw` as an arithmetic expression.
pub fn parse_cell(raw: &str, evaluated: Option<i64>) -> (r: Status)
    ensures
        classified(raw@, evaluated, r),
{
    match cell_parts(raw) {
        None => Status::Empty,
        Some((content, comment)) => {
            let original_text = raw.to_owned();
            let chars = chars_of(content.as_str());
            if chars.len() == 0 {
                Status::Finished(Cell { original_text, value: None, comment })
            } else if let Some(n) = evaluated {
                Status::Finished(Cell { original_text, value: Some(Value::Number(n)), comment })
            } else if find_char(chars.as_slice(), '[').is_none() {
                Status::Finished(Cell { original_text, value: Some(Value::Text(content)), comment })
            } else {
                Status::Pending(Cell { original_text, value: Some(Value::Text(content)), comment })
            }
        },
    }
}

} // verus!
