//! Laying a line of text out in the cells of a row.
//!
//! How many cells a character takes says the crate `unicode-width`. The
//! characters of a line are put side by side from the left for as long as
//! they fit into the row; what does not fit is cut off.

use crate::span::{Run, Span, Spans};
use crate::style::Style;
use crate::util::to_chars;
use vstd::prelude::*;

verus! {

/// What `unicode_width::UnicodeWidthChar::width` returns for a character.
pub uninterp spec fn display_width(c: char) -> Option<usize>;

/// Calls `unicode_width::UnicodeWidthChar::width`. Trusted: the result is
/// what that method returns for `c`, which this library calls
/// `display_width(c)`; nothing else is claimed of it.
#[verifier::external_body]
fn char_width(c: char) -> (r: Option<usize>)
    ensures
        r == display_width(c),
{
    unicode_width::UnicodeWidthChar::width(c)
}

/// How many cells `c` takes: none where it has no width.
pub open spec fn cells_of(c: char) -> nat {
    match display_width(c) {
        Some(w) => w as nat,
        None => 0,
    }
}

/// How many cells the first `i` characters of `s` take.
pub open spec fn cells_before(s: Seq<char>, i: int) -> nat
    decreases i,
{
    if i <= 0 {
        0
    } else {
        cells_before(s, i - 1) + cells_of(s[i - 1])
    }
}

/// How many characters of `s`, counted from its start and not fewer than
/// `from`, fit into `width` cells.
pub open spec fn fit_end(s: Seq<char>, width: nat, from: int) -> int
    decreases s.len() - from,
{
    if 0 <= from < s.len() && cells_before(s, from + 1) <= width {
        fit_end(s, width, from + 1)
    } else {
        from
    }
}

/// A character in its place in a row.
#[derive(Clone, Copy, Debug, PartialEq, Eq)]
pub struct Cell {
    /// The column of the first cell that the character takes.
    pub column: u16,
    pub symbol: char,
    /// How many cells the character takes.
    pub width: u16,
}

/// The character at `i`.
fn symbol_at(chars: &Vec<char>, i: usize) -> (r: char)
    requires
        i < chars@.len(),
    ensures
        r == chars@[i as int],
{
    chars[i]
}

/// How many cells `c` takes, if it fits into `room` cells.
fn fitting(c: char, room: u16) -> (r: Option<u16>)
    ensures
        r is Some == (cells_of(c) <= room),
        r is Some ==> r->0 == cells_of(c),
{
    let w: usize = match char_width(c) {
        Some(w) => w,
        None => 0,
    };
    if w > room as usize {
        None
    } else {
        Some(w as u16)
    }
}

/// The characters of `chars` that fit into a row of `width` cells, each
/// with its column.
fn cells_in_row(chars: &Vec<char>, width: u16) -> (r: Vec<Cell>)
    ensures
        r@.len() == fit_end(chars@, width as nat, 0),
        forall|i: int|
            0 <= i < r@.len() ==> (#[trigger] r@[i]).symbol == chars@[i] && r@[i].column
                == cells_before(chars@, i) && r@[i].width == cells_of(chars@[i]),
{
    let mut out: Vec<Cell> = Vec::new();
    let mut used: u16 = 0;
    let mut i: usize = 0;
    let mut full: bool = false;
    while i < chars.len() && !full
        invariant
            i <= chars.len(),
            out@.len() == i,
            used == cells_before(chars@, i as int),
            used <= width,
            fit_end(chars@, width as nat, 0) == fit_end(chars@, width as nat, i as int),
            full ==> i < chars.len() && cells_before(chars@, i + 1) > width,
            forall|k: int|
                0 <= k < i ==> (#[trigger] out@[k]).symbol == chars@[k] && out@[k].column
                    == cells_before(chars@, k) && out@[k].width == cells_of(chars@[k]),
        decreases chars.len() - i, (if full { 0nat } else { 1nat }),
    {
        let c: char = symbol_at(chars, i);
        let fits: Option<u16> = fitting(c, width - used);
        match fits {
            Some(w) => {
                out.push(Cell { column: used, symbol: c, width: w });
                used = used + w;
                i += 1;
            },
            None => {
                full = true;
            },
        }
    }
    out
}

/// The characters of `line` that fit into a row of `width` cells, each
/// with its column.
pub fn line_cells(line: &str, width: u16) -> (r: Vec<Cell>)
    ensures
        r@.len() == fit_end(line@, width as nat, 0),
        forall|i: int|
            0 <= i < r@.len() ==> (#[trigger] r@[i]).symbol == line@[i] && r@[i].column
                == cells_before(line@, i) && r@[i].width == cells_of(line@[i]),
{
    let chars: Vec<char> = to_chars(line);
    cells_in_row(&chars, width)
}

/// The characters of `runs` from left to right.
pub open spec fn row_text(runs: Seq<Run>) -> Seq<char>
    decreases runs.len(),
{
    if runs.len() == 0 {
        seq![]
    } else {
        row_text(runs.drop_last()) + runs.last().content
    }
}

/// For each character of `runs`, from left to right, the style of its run.
pub open spec fn row_styles(runs: Seq<Run>) -> Seq<Style>
    decreases runs.len(),
{
    if runs.len() == 0 {
        seq![]
    } else {
        row_styles(runs.drop_last()) + Seq::new(
            runs.last().content.len(),
            |i: int| runs.last().style,
        )
    }
}

/// A character in its place in a row, with the style to paint it in.
#[derive(Clone, Copy, Debug, PartialEq, Eq)]
pub struct StyledCell {
    pub cell: Cell,
    pub style: Style,
}

/// The characters of the runs of `line`, and the style of each.
fn flatten(line: &Spans) -> (r: (Vec<char>, Vec<Style>))
    ensures
        r.0@ == row_text(line@),
        r.1@ == row_styles(line@),
        r.0@.len() == r.1@.len(),
{
    let mut chars: Vec<char> = Vec::new();
    let mut styles: Vec<Style> = Vec::new();
    let mut i: usize = 0;
    assert(line@.take(0) =~= Seq::<Run>::empty());
    while i < line.0.len()
        invariant
            i <= line.0.len(),
            line@.len() == line.0@.len(),
            chars@ == row_text(line@.take(i as int)),
            styles@ == row_styles(line@.take(i as int)),
            styles@.len() == chars@.len(),
        decreases line.0.len() - i,
    {
        let span: &Span = &line.0[i];
        let text: Vec<char> = to_chars(span.content.as_str());
        let ghost text_before = chars@;
        let ghost styles_before = styles@;
        let ghost run = line@[i as int];
        assert(run == span@);
        assert(line@.take(i + 1).drop_last() =~= line@.take(i as int));
        assert(line@.take(i + 1).last() == run);
        let mut j: usize = 0;
        while j < text.len()
            invariant
                j <= text.len(),
                text@ == run.content,
                span.style == run.style,
                chars@ == text_before + run.content.take(j as int),
                styles@ == styles_before + Seq::new(j as nat, |k: int| run.style),
                styles@.len() == chars@.len(),
            decreases text.len() - j,
        {
            let c: char = symbol_at(&text, j);
            chars.push(c);
            styles.push(span.style);
            proof {
                assert(run.content.take(j + 1) =~= run.content.take(j as int).push(c));
                assert(chars@ =~= text_before + run.content.take(j + 1));
                assert(styles@ =~= styles_before + Seq::new((j + 1) as nat, |k: int| run.style));
            }
            j += 1;
        }
        assert(run.content.take(text@.len() as int) =~= run.content);
        i += 1;
    }
    assert(line@.take(line@.len() as int) =~= line@);
    (chars, styles)
}

/// The characters of the runs of `line` that fit into a row of `width`
/// cells, from left to right, each with its column and its style. The
/// runs stand side by side; what does not fit is cut off.
pub fn row_cells(line: &Spans, width: u16) -> (r: Vec<StyledCell>)
    ensures
        r@.len() == fit_end(row_text(line@), width as nat, 0),
        r@.len() <= row_styles(line@).len(),
        forall|i: int|
            0 <= i < r@.len() ==> {
                &&& (#[trigger] r@[i]).cell.symbol == row_text(line@)[i]
                &&& r@[i].style == row_styles(line@)[i]
                &&& r@[i].cell.column == cells_before(row_text(line@), i)
                &&& r@[i].cell.width == cells_of(row_text(line@)[i])
            },
{
    let (chars, styles) = flatten(line);
    let cells: Vec<Cell> = cells_in_row(&chars, width);
    proof {
        lemma_fit_end_bounds(chars@, width as nat, 0);
    }
    let mut out: Vec<StyledCell> = Vec::new();
    let mut i: usize = 0;
    while i < cells.len()
        invariant
            i <= cells.len(),
            cells@.len() <= styles@.len(),
            out@.len() == i,
            forall|k: int|
                0 <= k < i ==> (#[trigger] out@[k]).cell == cells@[k] && out@[k].style
                    == styles@[k],
        decreases cells.len() - i,
    {
        out.push(StyledCell { cell: cells[i], style: styles[i] });
        i += 1;
    }
    out
}

/// As many characters fit as there are, at most.
pub proof fn lemma_fit_end_bounds(s: Seq<char>, width: nat, from: int)
    requires
        0 <= from <= s.len(),
    ensures
        from <= fit_end(s, width, from) <= s.len(),
    decreases s.len() - from,
{
    if from < s.len() && cells_before(s, from + 1) <= width {
        lemma_fit_end_bounds(s, width, from + 1);
    }
}

} // verus!
