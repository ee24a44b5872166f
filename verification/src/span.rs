//! Styled runs: what a display line is painted from.
//!
//! A display line is split into tokens. Literal text becomes a run in the
//! style that is current; a graphic-rendition sequence replaces the current
//! style by the style its codes describe, starting from nothing set. Other
//! control sequences paint nothing and change nothing. A line starts with
//! nothing set, whatever the line before it ended with.

use crate::ansi::{tokenize, tokens, AnsiEscapeSequence, Sequence, Text, Token};
use crate::ansi_color::{apply_sgr, resolve};
use crate::style::Style;
use vstd::prelude::*;

verus! {

/// A piece of text in one style.
#[derive(Debug, PartialEq, Clone)]
pub struct Span {
    pub content: String,
    pub style: Style,
}

/// The mathematical value of a `Span`.
pub ghost struct Run {
    pub content: Seq<char>,
    pub style: Style,
}

impl View for Span {
    type V = Run;

    open spec fn view(&self) -> Run {
        Run { content: self.content@, style: self.style }
    }
}

impl Span {
    /// A run with nothing set.
    pub fn raw(content: &str) -> (r: Span)
        ensures
            r@ == (Run { content: content@, style: Style::plain() }),
    {
        Span { content: content.to_owned(), style: Style::reset() }
    }

    pub fn styled(content: &str, style: Style) -> (r: Span)
        ensures
            r@ == (Run { content: content@, style }),
    {
        Span { content: content.to_owned(), style }
    }
}

/// The runs of one display line, from left to right.
#[derive(Debug, PartialEq, Clone)]
pub struct Spans(pub Vec<Span>);

impl View for Spans {
    type V = Seq<Run>;

    open spec fn view(&self) -> Seq<Run> {
        Seq::new(self.0@.len(), |i: int| self.0@[i]@)
    }
}

impl Spans {
    /// A line of the given runs.
    pub fn new(spans: Vec<Span>) -> (r: Spans)
        ensures
            r.0@ == spans@,
    {
        Spans(spans)
    }

    /// A line that is one run with nothing set.
    pub fn raw(content: &str) -> (r: Spans)
        ensures
            r@ == seq![Run { content: content@, style: Style::plain() }],
    {
        let mut v: Vec<Span> = Vec::new();
        v.push(Span::raw(content));
        let r = Spans(v);
        assert(r@ =~= seq![Run { content: content@, style: Style::plain() }]);
        r
    }

    /// How many runs the line has.
    pub fn len(&self) -> (r: usize)
        ensures
            r == self@.len(),
    {
        self.0.len()
    }
}

/// The runs that `toks` give when `style` is current at their start.
///
/// A rendition sequence that literal text follows only sets the style of
/// that text. One that is followed by anything else, or by nothing, gives an
/// empty run in its style, so that no such sequence goes unseen.
pub open spec fn runs_of(toks: Seq<Token>, style: Style) -> Seq<Run>
    decreases toks.len(),
{
    if toks.len() == 0 {
        seq![]
    } else {
        match toks[0].ty {
            Sequence::Chars => seq![Run { content: toks[0].chars, style }] + runs_of(
                toks.skip(1),
                style,
            ),
            Sequence::SelectGraphicRendition(codes) => {
                let set = resolve(Style::plain(), codes);
                if toks.len() > 1 && toks[1].ty == Sequence::Chars {
                    runs_of(toks.skip(1), set)
                } else {
                    seq![Run { content: Seq::empty(), style: set }] + runs_of(toks.skip(1), set)
                }
            },
            _ => runs_of(toks.skip(1), style),
        }
    }
}

/// The runs of the display line `line`. A line that gives no run at all is
/// one empty run with nothing set.
pub open spec fn line_runs(line: Seq<char>) -> Seq<Run> {
    let runs = runs_of(tokens(line), Style::plain());
    if runs.len() == 0 {
        seq![Run { content: Seq::empty(), style: Style::plain() }]
    } else {
        runs
    }
}

/// Whether `token` is literal text.
fn is_chars(token: &Text) -> (r: bool)
    ensures
        r == (token@.ty == Sequence::Chars),
{
    match token.ty() {
        AnsiEscapeSequence::Chars => true,
        _ => false,
    }
}

/// The runs of one display line.
pub fn line_spans(line: &str) -> (r: Spans)
    ensures
        r@ == line_runs(line@),
{
    let toks: Vec<Text> = tokenize(line);
    let ghost spec_toks = tokens(line@);
    assert(toks@.len() == spec_toks.len());
    let mut out: Vec<Span> = Vec::new();
    let mut style: Style = Style::reset();
    let mut i: usize = 0;
    let ghost mut runs: Seq<Run> = seq![];
    assert(spec_toks.skip(0) == spec_toks);
    while i < toks.len()
        invariant
            i <= toks.len(),
            toks@.len() == spec_toks.len(),
            forall|k: int| 0 <= k < toks@.len() ==> (#[trigger] toks@[k])@ == spec_toks[k],
            runs.len() == out@.len(),
            forall|k: int| 0 <= k < out@.len() ==> (#[trigger] out@[k])@ == runs[k],
            runs + runs_of(spec_toks.skip(i as int), style) == runs_of(
                spec_toks,
                Style::plain(),
            ),
        decreases toks.len() - i,
    {
        let ghost rest = spec_toks.skip(i as int);
        let ghost before = runs;
        let token: &Text = &toks[i];
        assert(rest[0] == token@);
        assert(rest.skip(1) == spec_toks.skip(i + 1));
        assert(i + 1 < toks.len() ==> rest[1] == toks@[i + 1]@);
        match token.ty() {
            AnsiEscapeSequence::Chars => {
                let span: Span = Span::styled(token.chars(), style);
                proof {
                    runs = runs.push(span@);
                    assert(before + (seq![span@] + runs_of(rest.skip(1), style)) =~= runs
                        + runs_of(rest.skip(1), style));
                }
                out.push(span);
            },
            AnsiEscapeSequence::SelectGraphicRendition(codes) => {
                let set: Style = apply_sgr(Style::reset(), codes);
                let text_follows: bool = i + 1 < toks.len() && is_chars(&toks[i + 1]);
                if !text_follows {
                    let span: Span = Span::styled("", set);
                    proof {
                        reveal_strlit("");
                        assert(span@.content =~= Seq::<char>::empty());
                        runs = runs.push(span@);
                        assert(before + (seq![span@] + runs_of(rest.skip(1), set)) =~= runs
                            + runs_of(rest.skip(1), set));
                    }
                    out.push(span);
                }
                style = set;
            },
            _ => {},
        }
        i += 1;
    }
    proof {
        assert(spec_toks.skip(toks@.len() as int).len() == 0);
        assert(runs + Seq::<Run>::empty() =~= runs);
    }
    if out.len() == 0 {
        let span: Span = Span::raw("");
        proof {
            reveal_strlit("");
            assert(span@.content =~= Seq::<char>::empty());
        }
        out.push(span);
        let r = Spans(out);
        assert(r@ =~= line_runs(line@));
        r
    } else {
        let r = Spans(out);
        assert(r@ =~= line_runs(line@));
        r
    }
}

/// The runs of every display line, line after line.
pub fn generate_spans(lines: &Vec<String>) -> (r: Vec<Spans>)
    ensures
        r@.len() == lines@.len(),
        forall|k: int| 0 <= k < r@.len() ==> (#[trigger] r@[k])@ == line_runs(lines@[k]@),
{
    let mut out: Vec<Spans> = Vec::new();
    let mut i: usize = 0;
    while i < lines.len()
        invariant
            i <= lines.len(),
            out@.len() == i,
            forall|k: int| 0 <= k < out@.len() ==> (#[trigger] out@[k])@ == line_runs(lines@[k]@),
        decreases lines.len() - i,
    {
        out.push(line_spans(lines[i].as_str()));
        i += 1;
    }
    out
}

} // verus!
