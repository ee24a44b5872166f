use kubetui::paragraph::{line_cells, row_cells, Cell};
use kubetui::span::{Span, Spans};
use kubetui::style::{Color, Style};

#[test]
fn narrow_characters_take_one_cell_each() {
    let cells = line_cells("abc", 10);
    assert_eq!(
        cells,
        vec![
            Cell { column: 0, symbol: 'a', width: 1 },
            Cell { column: 1, symbol: 'b', width: 1 },
            Cell { column: 2, symbol: 'c', width: 1 },
        ]
    );
}

#[test]
fn wide_characters_take_two_cells() {
    let cells = line_cells("a\u{3042}b", 10);
    assert_eq!(
        cells,
        vec![
            Cell { column: 0, symbol: 'a', width: 1 },
            Cell { column: 1, symbol: '\u{3042}', width: 2 },
            Cell { column: 3, symbol: 'b', width: 1 },
        ]
    );
}

#[test]
fn what_does_not_fit_is_cut_off() {
    let cells = line_cells("a\u{3042}b", 2);
    assert_eq!(cells, vec![Cell { column: 0, symbol: 'a', width: 1 }]);
    let cells = line_cells("a\u{3042}b", 3);
    assert_eq!(cells.len(), 2);
    assert_eq!(cells[1].column, 1);
    assert_eq!(cells[1].width, 2);
}

#[test]
fn a_row_without_cells_holds_only_what_has_no_width() {
    assert_eq!(line_cells("abc", 0), vec![]);
    assert_eq!(line_cells("", 5), vec![]);
    let cells = line_cells("\u{301}a", 0);
    assert_eq!(cells, vec![Cell { column: 0, symbol: '\u{301}', width: 0 }]);
}

#[test]
fn runs_stand_side_by_side_in_a_row() {
    let red = Style::default().fg(Color::Red);
    let line = Spans::new(vec![Span::raw("ab"), Span::styled("\u{3042}c", red), Span::raw("d")]);
    let cells = row_cells(&line, 10);
    let expected = vec![
        (0, 'a', 1, Style::default()),
        (1, 'b', 1, Style::default()),
        (2, '\u{3042}', 2, red),
        (4, 'c', 1, red),
        (5, 'd', 1, Style::default()),
    ];
    assert_eq!(cells.len(), expected.len());
    for (cell, (column, symbol, width, style)) in cells.iter().zip(expected) {
        assert_eq!(cell.cell, Cell { column, symbol, width });
        assert_eq!(cell.style, style);
    }
}

#[test]
fn a_row_is_cut_off_in_the_middle_of_a_run() {
    let red = Style::default().fg(Color::Red);
    let line = Spans::new(vec![Span::raw("ab"), Span::styled("\u{3042}c", red), Span::raw("d")]);
    assert_eq!(row_cells(&line, 3).len(), 2);
    assert_eq!(row_cells(&line, 4).len(), 3);
    assert_eq!(row_cells(&line, 5).len(), 4);
    assert_eq!(row_cells(&line, 0).len(), 0);
    assert_eq!(row_cells(&Spans::new(vec![]), 5), vec![]);
    assert_eq!(row_cells(&Spans::raw(""), 5), vec![]);
}
