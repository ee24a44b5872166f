//! Resolution of graphic-rendition codes into a `Style`.
//!
//! A list of codes is folded from left to right over a running style. Most
//! codes stand alone; `38` and `48` take the codes that follow them as the
//! description of an indexed or a 24-bit color.

use crate::style::{Color, Modifier, Style};
use vstd::prelude::*;

verus! {

/// The parameters of one graphic-rendition sequence, in the order written.
pub struct Sgr(pub Vec<u8>);

impl Sgr {
    pub fn new(code: Vec<u8>) -> (r: Sgr)
        ensures
            r.0@ == code@,
    {
        Sgr(code)
    }

    /// The style that the parameters describe, starting from nothing set.
    pub fn style(&self) -> (r: Style)
        ensures
            r == resolve(Style::plain(), self.0@),
    {
        apply_sgr(Style::reset(), &self.0)
    }
}

impl From<Vec<u8>> for Sgr {
    fn from(code: Vec<u8>) -> (r: Sgr) {
        Sgr(code)
    }
}

impl vstd::std_specs::convert::FromSpecImpl<Vec<u8>> for Sgr {
    open spec fn obeys_from_spec() -> bool {
        true
    }

    open spec fn from_spec(code: Vec<u8>) -> Sgr {
        Sgr(code)
    }
}

impl From<Sgr> for Style {
    fn from(sgr: Sgr) -> (r: Style) {
        ansi_to_style(sgr.0)
    }
}

impl vstd::std_specs::convert::FromSpecImpl<Sgr> for Style {
    open spec fn obeys_from_spec() -> bool {
        true
    }

    open spec fn from_spec(sgr: Sgr) -> Style {
        resolve(Style::plain(), sgr.0@)
    }
}

/// The color named by a code in `30..=37`.
pub open spec fn spec_normal_color(n: u8) -> Color
    recommends
        30 <= n <= 37,
{
    if n == 30 {
        Color::Black
    } else if n == 31 {
        Color::Red
    } else if n == 32 {
        Color::Green
    } else if n == 33 {
        Color::Yellow
    } else if n == 34 {
        Color::Blue
    } else if n == 35 {
        Color::Magenta
    } else if n == 36 {
        Color::Cyan
    } else {
        Color::White
    }
}

/// The color named by a code in `90..=97`.
pub open spec fn spec_bright_color(n: u8) -> Color
    recommends
        90 <= n <= 97,
{
    if n == 90 {
        Color::DarkGray
    } else if n == 91 {
        Color::LightRed
    } else if n == 92 {
        Color::LightGreen
    } else if n == 93 {
        Color::LightYellow
    } else if n == 94 {
        Color::LightBlue
    } else if n == 95 {
        Color::LightMagenta
    } else if n == 96 {
        Color::LightCyan
    } else {
        Color::Gray
    }
}

/// The flag switched on by a code in `1..=9`.
pub open spec fn spec_modifiers(n: u8) -> Modifier
    recommends
        1 <= n <= 9,
{
    if n == 1 {
        Modifier::Bold
    } else if n == 2 {
        Modifier::Dim
    } else if n == 3 {
        Modifier::Italic
    } else if n == 4 {
        Modifier::Underlined
    } else if n == 5 {
        Modifier::SlowBlink
    } else if n == 6 {
        Modifier::RapidBlink
    } else if n == 7 {
        Modifier::Reversed
    } else if n == 8 {
        Modifier::Hidden
    } else {
        Modifier::CrossedOut
    }
}

/// What one stand-alone code does to a style. A code that is not listed
/// leaves the style as it is.
pub open spec fn spec_color_3_4bit(style: Style, code: u8) -> Style {
    if 1 <= code <= 9 {
        style.with_modifier(spec_modifiers(code), true)
    } else if code == 22 {
        style.with_modifier(Modifier::Bold, false).with_modifier(Modifier::Dim, false)
    } else if code == 23 {
        style.with_modifier(Modifier::Italic, false)
    } else if code == 24 {
        style.with_modifier(Modifier::Underlined, false)
    } else if code == 25 {
        style.with_modifier(Modifier::SlowBlink, false).with_modifier(Modifier::RapidBlink, false)
    } else if code == 27 {
        style.with_modifier(Modifier::Reversed, false)
    } else if code == 29 {
        style.with_modifier(Modifier::CrossedOut, false)
    } else if 30 <= code <= 37 {
        style.with_fg(spec_normal_color(code))
    } else if 90 <= code <= 97 {
        style.with_fg(spec_bright_color(code))
    } else if code == 39 {
        style.with_fg(Color::Reset)
    } else if 40 <= code <= 47 {
        style.with_bg(spec_normal_color((code - 10) as u8))
    } else if 100 <= code <= 107 {
        style.with_bg(spec_bright_color((code - 10) as u8))
    } else if code == 49 {
        style.with_bg(Color::Reset)
    } else {
        style
    }
}

/// The code at position `i`, or 0 where the list has ended.
pub open spec fn code_at(codes: Seq<u8>, i: int) -> u8 {
    if 0 <= i < codes.len() {
        codes[i]
    } else {
        0
    }
}

/// The color described by the codes that follow a `38` or `48`, if they
/// describe one: `5;n` is the indexed color `n`, `2;r;g;b` a 24-bit color.
/// Components that the list no longer holds count as 0.
pub open spec fn extended_color(codes: Seq<u8>) -> Option<Color>
    recommends
        codes.len() > 0,
{
    if codes.len() < 2 {
        None
    } else if codes[1] == 2 {
        Some(Color::Rgb(code_at(codes, 2), code_at(codes, 3), code_at(codes, 4)))
    } else if codes[1] == 5 {
        Some(Color::Indexed(code_at(codes, 2)))
    } else {
        None
    }
}

/// How many codes the full form of the first step of the fold spans: 1 for a
/// stand-alone code, more for `38` and `48` with what they take along.
pub open spec fn step_span(codes: Seq<u8>) -> int
    recommends
        codes.len() > 0,
{
    if codes[0] == 38 || codes[0] == 48 {
        if codes.len() < 2 {
            2
        } else if codes[1] == 2 {
            5
        } else if codes[1] == 5 {
            3
        } else {
            2
        }
    } else {
        1
    }
}

/// How many codes the first step of the fold consumes: its span, cut off at
/// the end of the list.
pub open spec fn step_len(codes: Seq<u8>) -> int
    recommends
        codes.len() > 0,
{
    if step_span(codes) <= codes.len() {
        step_span(codes)
    } else {
        codes.len() as int
    }
}

/// The style after the first step of the fold.
pub open spec fn step(style: Style, codes: Seq<u8>) -> Style
    recommends
        codes.len() > 0,
{
    if codes[0] == 38 {
        match extended_color(codes) {
            Some(c) => style.with_fg(c),
            None => style,
        }
    } else if codes[0] == 48 {
        match extended_color(codes) {
            Some(c) => style.with_bg(c),
            None => style,
        }
    } else if codes[0] == 0 {
        Style::plain()
    } else {
        spec_color_3_4bit(style, codes[0])
    }
}

/// The style that results from folding `codes` over `style`.
pub open spec fn resolve(style: Style, codes: Seq<u8>) -> Style
    decreases codes.len(),
{
    if codes.len() == 0 {
        style
    } else {
        resolve(step(style, codes), codes.skip(step_len(codes)))
    }
}

/// Whether `codes` ends where a step ends: no `38` or `48` in it is left
/// waiting for codes that a longer list could still supply.
pub open spec fn ends_on_step(codes: Seq<u8>) -> bool
    decreases codes.len(),
{
    if codes.len() == 0 {
        true
    } else {
        step_span(codes) <= codes.len() && ends_on_step(codes.skip(step_len(codes)))
    }
}

pub fn normal_color(n: u8) -> (r: Color)
    requires
        30 <= n <= 37,
    ensures
        r == spec_normal_color(n),
{
    if n == 30 {
        Color::Black
    } else if n == 31 {
        Color::Red
    } else if n == 32 {
        Color::Green
    } else if n == 33 {
        Color::Yellow
    } else if n == 34 {
        Color::Blue
    } else if n == 35 {
        Color::Magenta
    } else if n == 36 {
        Color::Cyan
    } else {
        Color::White
    }
}

pub fn bright_color(n: u8) -> (r: Color)
    requires
        90 <= n <= 97,
    ensures
        r == spec_bright_color(n),
{
    if n == 90 {
        Color::DarkGray
    } else if n == 91 {
        Color::LightRed
    } else if n == 92 {
        Color::LightGreen
    } else if n == 93 {
        Color::LightYellow
    } else if n == 94 {
        Color::LightBlue
    } else if n == 95 {
        Color::LightMagenta
    } else if n == 96 {
        Color::LightCyan
    } else {
        Color::Gray
    }
}

pub fn modifiers(n: u8) -> (r: Modifier)
    requires
        1 <= n <= 9,
    ensures
        r == spec_modifiers(n),
{
    if n == 1 {
        Modifier::Bold
    } else if n == 2 {
        Modifier::Dim
    } else if n == 3 {
        Modifier::Italic
    } else if n == 4 {
        Modifier::Underlined
    } else if n == 5 {
        Modifier::SlowBlink
    } else if n == 6 {
        Modifier::RapidBlink
    } else if n == 7 {
        Modifier::Reversed
    } else if n == 8 {
        Modifier::Hidden
    } else {
        Modifier::CrossedOut
    }
}

/// Applies one stand-alone code to `style`.
pub fn color_3_4bit(style: Style, code: u8) -> (r: Style)
    ensures
        r == spec_color_3_4bit(style, code),
{
    if 1 <= code && code <= 9 {
        style.add_modifier(modifiers(code))
    } else if code == 22 {
        style.remove_modifier(Modifier::Bold).remove_modifier(Modifier::Dim)
    } else if code == 23 {
        style.remove_modifier(Modifier::Italic)
    } else if code == 24 {
        style.remove_modifier(Modifier::Underlined)
    } else if code == 25 {
        style.remove_modifier(Modifier::SlowBlink).remove_modifier(Modifier::RapidBlink)
    } else if code == 27 {
        style.remove_modifier(Modifier::Reversed)
    } else if code == 29 {
        style.remove_modifier(Modifier::CrossedOut)
    } else if 30 <= code && code <= 37 {
        style.fg(normal_color(code))
    } else if 90 <= code && code <= 97 {
        style.fg(bright_color(code))
    } else if code == 39 {
        style.fg(Color::Reset)
    } else if 40 <= code && code <= 47 {
        style.bg(normal_color(code - 10))
    } else if 100 <= code && code <= 107 {
        style.bg(bright_color(code - 10))
    } else if code == 49 {
        style.bg(Color::Reset)
    } else {
        style
    }
}

fn code_or_zero(codes: &Vec<u8>, i: usize) -> (r: u8)
    ensures
        r == code_at(codes@, i as int),
{
    if i < codes.len() {
        codes[i]
    } else {
        0
    }
}

/// Reads the color that follows a `38` or `48` at position `i`.
fn read_extended_color(codes: &Vec<u8>, i: usize) -> (r: Option<Color>)
    requires
        i < codes.len(),
    ensures
        r == extended_color(codes@.skip(i as int)),
{
    let ghost rest = codes@.skip(i as int);
    if codes.len() - i < 2 {
        None
    } else {
        let kind: u8 = codes[i + 1];
        assert(rest[1] == kind);
        if kind == 2 {
            let r: u8 = code_or_zero(codes, i.saturating_add(2));
            let g: u8 = code_or_zero(codes, i.saturating_add(3));
            let b: u8 = code_or_zero(codes, i.saturating_add(4));
            assert(r == code_at(rest, 2) && g == code_at(rest, 3) && b == code_at(rest, 4));
            Some(Color::Rgb(r, g, b))
        } else if kind == 5 {
            let n: u8 = code_or_zero(codes, i.saturating_add(2));
            assert(n == code_at(rest, 2));
            Some(Color::Indexed(n))
        } else {
            None
        }
    }
}

/// Folds `codes` over `style`.
pub fn apply_sgr(style: Style, codes: &Vec<u8>) -> (r: Style)
    ensures
        r == resolve(style, codes@),
{
    let mut current: Style = style;
    let mut i: usize = 0;
    assert(codes@.skip(0) == codes@);
    while i < codes.len()
        invariant
            i <= codes.len(),
            resolve(style, codes@) == resolve(current, codes@.skip(i as int)),
        decreases codes.len() - i,
    {
        let ghost rest = codes@.skip(i as int);
        let code: u8 = codes[i];
        assert(rest[0] == code);
        let span: usize = if code == 38 || code == 48 {
            if codes.len() - i < 2 {
                2
            } else if codes[i + 1] == 2 {
                5
            } else if codes[i + 1] == 5 {
                3
            } else {
                2
            }
        } else {
            1
        };
        assert(codes.len() - i >= 2 ==> rest[1] == codes@[i + 1]);
        assert(span == step_span(rest));
        if code == 38 {
            match read_extended_color(codes, i) {
                Some(c) => {
                    current = current.fg(c);
                },
                None => {},
            }
        } else if code == 48 {
            match read_extended_color(codes, i) {
                Some(c) => {
                    current = current.bg(c);
                },
                None => {},
            }
        } else if code == 0 {
            current = Style::reset();
        } else {
            current = color_3_4bit(current, code);
        }
        let next: usize = if span <= codes.len() - i {
            i + span
        } else {
            codes.len()
        };
        assert(codes@.skip(next as int) == rest.skip(step_len(rest)));
        i = next;
    }
    assert(codes@.skip(i as int).len() == 0);
    current
}

/// The style that `codes` describe, starting from nothing set.
pub fn ansi_to_style(codes: Vec<u8>) -> (r: Style)
    ensures
        r == resolve(Style::plain(), codes@),
{
    apply_sgr(Style::reset(), &codes)
}

/// Folding `[0]` over any style gives the style with nothing set.
pub proof fn lemma_reset_clears(style: Style)
    ensures
        resolve(style, seq![0u8]) == Style::plain(),
{
    let codes = seq![0u8];
    assert(step_len(codes) == 1);
    assert(codes.skip(1).len() == 0);
    assert(resolve(step(style, codes), codes.skip(1)) == step(style, codes));
}

/// The fold can be cut wherever a step ends: folding `first` and then
/// `second` over the style that `first` left gives what folding the two as
/// one list gives.
pub proof fn lemma_resolve_in_parts(style: Style, first: Seq<u8>, second: Seq<u8>)
    requires
        ends_on_step(first),
    ensures
        resolve(style, first + second) == resolve(resolve(style, first), second),
    decreases first.len(),
{
    if first.len() == 0 {
        assert(first + second == second);
    } else {
        let whole = first + second;
        let n = step_len(first);
        assert(whole[0] == first[0]);
        assert(first.len() >= 2 ==> whole[1] == first[1]);
        assert(step_span(whole) == step_span(first));
        assert(step_len(whole) == n);
        assert(forall|k: int| 0 <= k < first.len() ==> code_at(whole, k) == code_at(first, k));
        if first[0] == 38 || first[0] == 48 {
            assert(extended_color(whole) == extended_color(first));
        }
        assert(step(style, whole) == step(style, first));
        assert(whole.skip(n) == first.skip(n) + second);
        lemma_resolve_in_parts(step(style, first), first.skip(n), second);
    }
}

/// A list of stand-alone codes can be folded one code at a time.
pub proof fn lemma_single_code_is_step(style: Style, code: u8)
    requires
        code != 38,
        code != 48,
    ensures
        ends_on_step(seq![code]),
        resolve(style, seq![code]) == if code == 0 {
            Style::plain()
        } else {
            spec_color_3_4bit(style, code)
        },
{
    let codes = seq![code];
    assert(step_len(codes) == 1);
    assert(codes.skip(1).len() == 0);
    assert(ends_on_step(codes.skip(1)));
    assert(resolve(step(style, codes), codes.skip(1)) == step(style, codes));
}

} // verus!
