use gridcalc::cell::{cell_parts, parse_cell, Cell, Status, Value};
use gridcalc::driver::{resolve_grid, resolve_pass, resolve_passes, PASS_BUDGET};
use gridcalc::grid::{grid_from_fields, Grid};
use gridcalc::pos::{try_parse_span, Pos};
use gridcalc::resolve::{list_from_span, resolve_cell};
use gridcalc::split::split_fields;

/// Builds a grid from text, where `numbers` gives the evaluated cells by position.
fn grid(text: &str, numbers: &[((usize, usize), i64)]) -> Grid {
    let fields = split_fields(text, '\t');
    let evaluated: Vec<Vec<Option<i64>>> = fields
        .iter()
        .enumerate()
        .map(|(y, row)| {
            (0..row.len())
                .map(|x| numbers.iter().find(|(p, _)| *p == (x, y)).map(|(_, n)| *n))
                .collect()
        })
        .collect();
    grid_from_fields(&fields, &evaluated)
}

fn at(g: &Grid, x: usize, y: usize) -> &Status {
    &g.rows[y][x]
}

fn finished_number(s: &Status) -> Option<i64> {
    match s {
        Status::Finished(Cell { value: Some(Value::Number(n)), .. }) => Some(*n),
        _ => None,
    }
}

#[test]
fn reference_resolves_after_two_passes() {
    let mut g = grid("5\n[0,0]", &[((0, 0), 5)]);
    resolve_passes(&mut g, 2);
    assert_eq!(finished_number(at(&g, 0, 0)), Some(5));
    assert_eq!(finished_number(at(&g, 0, 1)), Some(5));
}

#[test]
fn reference_needs_a_second_pass() {
    let mut g = grid("5\n[0,0]", &[((0, 0), 5)]);
    resolve_pass(&mut g);
    match at(&g, 0, 1) {
        Status::Pending(c) => assert_eq!(c.value, Some(Value::Reference(Pos { x: 0, y: 0 }))),
        other => panic!("unexpected {:?}", other),
    }
}

#[test]
fn sum_of_a_row() {
    let mut g = grid("1\t2\t3\nSum(Span([0,0],[0,2]))", &[((0, 0), 1), ((1, 0), 2), ((2, 0), 3)]);
    resolve_grid(&mut g);
    assert_eq!(finished_number(at(&g, 0, 1)), Some(6));
}

#[test]
fn empty_cell_is_empty_and_skipped_by_sum() {
    let mut g = grid("1\t\t2\nSum(Span([0,0],[0,2]))", &[((0, 0), 1), ((2, 0), 2)]);
    assert_eq!(*at(&g, 1, 0), Status::Empty);
    resolve_grid(&mut g);
    assert_eq!(*at(&g, 1, 0), Status::Empty);
    assert_eq!(finished_number(at(&g, 0, 1)), Some(3));
}

#[test]
fn sum_over_rectangle_with_spaces() {
    let mut g = grid(
        "1\t2\n3\t4\nSum(Span([0,0], [1,1])) # total",
        &[((0, 0), 1), ((1, 0), 2), ((0, 1), 3), ((1, 1), 4)],
    );
    resolve_grid(&mut g);
    assert_eq!(finished_number(at(&g, 0, 2)), Some(10));
    match at(&g, 0, 2) {
        Status::Finished(c) => assert_eq!(c.comment, Some("total".to_string())),
        other => panic!("unexpected {:?}", other),
    }
}

#[test]
fn sum_waits_for_pending_member() {
    let mut g = grid("1\t[0,0]\nSum(Span([0,0],[0,1]))", &[((0, 0), 1)]);
    resolve_pass(&mut g);
    assert!(matches!(at(&g, 0, 1), Status::Pending(_)));
    resolve_pass(&mut g);
    assert_eq!(finished_number(at(&g, 1, 0)), Some(1));
    assert!(matches!(at(&g, 0, 1), Status::Pending(_)));
    resolve_pass(&mut g);
    assert_eq!(finished_number(at(&g, 0, 1)), Some(2));
}

#[test]
fn sum_skips_text_cells() {
    let mut g = grid("4\tabc\t6\nSum(Span([0,0],[0,2]))", &[((0, 0), 4), ((2, 0), 6)]);
    resolve_grid(&mut g);
    assert_eq!(finished_number(at(&g, 0, 1)), Some(10));
}

#[test]
fn sum_that_does_not_fit_stays_pending() {
    let mut g = grid("1\t2\nSum(Span([0,0],[0,1]))", &[((0, 0), i64::MAX), ((1, 0), 1)]);
    resolve_grid(&mut g);
    match at(&g, 0, 1) {
        Status::Pending(c) => assert_eq!(
            c.value,
            Some(Value::Aggregate(Pos { x: 0, y: 0 }, Pos { x: 1, y: 0 }))
        ),
        other => panic!("unexpected {:?}", other),
    }
}

#[test]
fn chain_of_references() {
    let mut g = grid("7\t[0,0]\t[0,1]\t[0,2]", &[((0, 0), 7)]);
    resolve_grid(&mut g);
    for x in 0..4 {
        assert_eq!(finished_number(at(&g, x, 0)), Some(7));
    }
}

#[test]
fn terminal_cells_never_change() {
    let mut g = grid("5\thello\t\t# only a comment", &[((0, 0), 5)]);
    let before = g.snapshot();
    resolve_passes(&mut g, PASS_BUDGET * 2);
    assert_eq!(g.rows, before.rows);
}

#[test]
fn missing_reference_stays_pending() {
    let mut g = grid("[5,5]", &[]);
    resolve_grid(&mut g);
    match at(&g, 0, 0) {
        Status::Pending(c) => assert_eq!(c.value, Some(Value::Reference(Pos { x: 5, y: 5 }))),
        other => panic!("unexpected {:?}", other),
    }
}

#[test]
fn malformed_formulas_stay_pending_unchanged() {
    for text in ["[abc]", "Span([0,0]", "Sum(Span([0,0]))", "x[1,1]"] {
        let mut g = grid(text, &[]);
        let before = g.snapshot();
        assert!(matches!(at(&g, 0, 0), Status::Pending(_)));
        resolve_grid(&mut g);
        assert_eq!(g.rows, before.rows, "{}", text);
    }
}

#[test]
fn reference_to_empty_cell_copies_empty() {
    let mut g = grid("\t[0,0]", &[]);
    resolve_grid(&mut g);
    assert_eq!(*at(&g, 1, 0), Status::Empty);
}

#[test]
fn range_is_parsed_and_kept() {
    let mut g = grid("Span([0,0],[1,2])", &[]);
    resolve_grid(&mut g);
    match at(&g, 0, 0) {
        Status::Pending(c) => assert_eq!(
            c.value,
            Some(Value::Range(Pos { x: 0, y: 0 }, Pos { x: 2, y: 1 }))
        ),
        other => panic!("unexpected {:?}", other),
    }
}

#[test]
fn resolve_cell_leaves_finished_alone() {
    let g = grid("5", &[((0, 0), 5)]);
    let mut s = g.snapshot().rows[0].remove(0);
    resolve_cell(&g, &mut s);
    assert_eq!(finished_number(&s), Some(5));
}

#[test]
fn extent_of_grid() {
    let g = grid("1\t2\t3\n4\n\n", &[]);
    assert_eq!((g.width, g.height), (3, 3));
    let g = grid("", &[]);
    assert_eq!((g.width, g.height), (1, 1));
    assert!(g.rows.is_empty());
}

#[test]
fn parse_positions() {
    assert_eq!(Pos::try_parse("[1, 2]"), Some(Pos { x: 2, y: 1 }));
    assert_eq!(Pos::try_parse("[ 0 ,19999 ]"), Some(Pos { x: 19999, y: 0 }));
    assert_eq!(Pos::try_parse("[abc]"), None);
    assert_eq!(Pos::try_parse("[1,20000]"), None);
    assert_eq!(Pos::try_parse("[1,-2]"), None);
    assert_eq!(Pos::try_parse("[1,2"), None);
    assert_eq!(Pos::new(3, 4), Pos { x: 3, y: 4 });
}

#[test]
fn parse_spans() {
    assert_eq!(
        try_parse_span("Span([0,0], [1,2])"),
        Some((Pos { x: 0, y: 0 }, Pos { x: 2, y: 1 }))
    );
    assert_eq!(
        try_parse_span("Span([3,4],[5,6])"),
        Some((Pos { x: 4, y: 3 }, Pos { x: 6, y: 5 }))
    );
    assert_eq!(try_parse_span("Span([0,0] [1,2])"), None);
    assert_eq!(try_parse_span("Span([0,0]"), None);
}

#[test]
fn span_positions_row_by_row() {
    let ps = list_from_span((Pos { x: 1, y: 0 }, Pos { x: 2, y: 1 }));
    assert_eq!(
        ps,
        vec![
            Pos { x: 1, y: 0 },
            Pos { x: 2, y: 0 },
            Pos { x: 1, y: 1 },
            Pos { x: 2, y: 1 }
        ]
    );
    assert!(list_from_span((Pos { x: 2, y: 0 }, Pos { x: 1, y: 0 })).is_empty());
}

#[test]
fn cell_content_and_comment() {
    assert_eq!(
        cell_parts("  1 + 2 # the note  "),
        Some(("1 + 2".to_string(), Some("the note".to_string())))
    );
    assert_eq!(cell_parts(" plain "), Some(("plain".to_string(), None)));
    assert_eq!(cell_parts("   "), None);
}

#[test]
fn classification_of_cells() {
    assert_eq!(parse_cell("  ", None), Status::Empty);
    assert_eq!(
        parse_cell(" # note", None),
        Status::Finished(Cell { original_text: " # note".to_string(), value: None, comment: Some("note".to_string()) })
    );
    assert_eq!(
        parse_cell("2*3", Some(6)),
        Status::Finished(Cell { original_text: "2*3".to_string(), value: Some(Value::Number(6)), comment: None })
    );
    assert_eq!(
        parse_cell(" hi ", None),
        Status::Finished(Cell { original_text: " hi ".to_string(), value: Some(Value::Text("hi".to_string())), comment: None })
    );
    assert_eq!(
        parse_cell("[0,1]", None),
        Status::Pending(Cell { original_text: "[0,1]".to_string(), value: Some(Value::Text("[0,1]".to_string())), comment: None })
    );
}

#[test]
fn split_lines_and_fields() {
    let f = split_fields("a,b\r\n\nc\n", ',');
    assert_eq!(
        f,
        vec![vec!["a".to_string(), "b".to_string()], vec!["".to_string()], vec!["c".to_string()]]
    );
    let f = split_fields("x\ty", '\t');
    assert_eq!(f, vec![vec!["x".to_string(), "y".to_string()]]);
}
