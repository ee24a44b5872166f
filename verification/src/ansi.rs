//! Splitting text into literal runs and terminal control sequences.
//!
//! A control sequence is the escape character, `[`, an optional `?` or `=`,
//! a list of decimal parameters separated by `;`, and one final character
//! that says what the sequence is. An escape character that does not start
//! such a sequence is a token of its own, so every text splits into tokens
//! whose spans, put together again, are the text.

use vstd::prelude::*;

verus! {

/// The escape character.
pub const ESC: char = '\u{1b}';

/// What a token is.
#[derive(Debug, PartialEq, Clone)]
pub enum AnsiEscapeSequence {
    /// Literal text.
    Chars,
    /// An escape character that starts no known sequence.
    Escape,
    CursorUp(u16),
    CursorDown(u16),
    CursorForward(u16),
    CursorBack(u16),
    CursorNextLine(u16),
    CursorPreviousLine(u16),
    CursorHorizontalAbs(u16),
    CursorPos(u16, u16),
    EraseDisplay(u16),
    EraseLine(u16),
    ScrollUp(u16),
    ScrollDown(u16),
    HorizontalVerticalPos(u16, u16),
    SelectGraphicRendition(Vec<u8>),
    AuxPortOn,
    AuxPortOff,
    DeviceStatusReport,
    SaveCurrentCursorPos,
    RestoreSavedCursorPos,
    CursorShow,
    CursorHide,
    SetMode(u8),
    ResetMode(u8),
}

/// The mathematical value of an `AnsiEscapeSequence`.
pub ghost enum Sequence {
    Chars,
    Escape,
    CursorUp(u16),
    CursorDown(u16),
    CursorForward(u16),
    CursorBack(u16),
    CursorNextLine(u16),
    CursorPreviousLine(u16),
    CursorHorizontalAbs(u16),
    CursorPos(u16, u16),
    EraseDisplay(u16),
    EraseLine(u16),
    ScrollUp(u16),
    ScrollDown(u16),
    HorizontalVerticalPos(u16, u16),
    SelectGraphicRendition(Seq<u8>),
    AuxPortOn,
    AuxPortOff,
    DeviceStatusReport,
    SaveCurrentCursorPos,
    RestoreSavedCursorPos,
    CursorShow,
    CursorHide,
    SetMode(u8),
    ResetMode(u8),
}

impl View for AnsiEscapeSequence {
    type V = Sequence;

    open spec fn view(&self) -> Sequence {
        match *self {
            AnsiEscapeSequence::Chars => Sequence::Chars,
            AnsiEscapeSequence::Escape => Sequence::Escape,
            AnsiEscapeSequence::CursorUp(n) => Sequence::CursorUp(n),
            AnsiEscapeSequence::CursorDown(n) => Sequence::CursorDown(n),
            AnsiEscapeSequence::CursorForward(n) => Sequence::CursorForward(n),
            AnsiEscapeSequence::CursorBack(n) => Sequence::CursorBack(n),
            AnsiEscapeSequence::CursorNextLine(n) => Sequence::CursorNextLine(n),
            AnsiEscapeSequence::CursorPreviousLine(n) => Sequence::CursorPreviousLine(n),
            AnsiEscapeSequence::CursorHorizontalAbs(n) => Sequence::CursorHorizontalAbs(n),
            AnsiEscapeSequence::CursorPos(r, c) => Sequence::CursorPos(r, c),
            AnsiEscapeSequence::EraseDisplay(n) => Sequence::EraseDisplay(n),
            AnsiEscapeSequence::EraseLine(n) => Sequence::EraseLine(n),
            AnsiEscapeSequence::ScrollUp(n) => Sequence::ScrollUp(n),
            AnsiEscapeSequence::ScrollDown(n) => Sequence::ScrollDown(n),
            AnsiEscapeSequence::HorizontalVerticalPos(r, c) => Sequence::HorizontalVerticalPos(
                r,
                c,
            ),
            AnsiEscapeSequence::SelectGraphicRendition(codes) => Sequence::SelectGraphicRendition(
                codes@,
            ),
            AnsiEscapeSequence::AuxPortOn => Sequence::AuxPortOn,
            AnsiEscapeSequence::AuxPortOff => Sequence::AuxPortOff,
            AnsiEscapeSequence::DeviceStatusReport => Sequence::DeviceStatusReport,
            AnsiEscapeSequence::SaveCurrentCursorPos => Sequence::SaveCurrentCursorPos,
            AnsiEscapeSequence::RestoreSavedCursorPos => Sequence::RestoreSavedCursorPos,
            AnsiEscapeSequence::CursorShow => Sequence::CursorShow,
            AnsiEscapeSequence::CursorHide => Sequence::CursorHide,
            AnsiEscapeSequence::SetMode(n) => Sequence::SetMode(n),
            AnsiEscapeSequence::ResetMode(n) => Sequence::ResetMode(n),
        }
    }
}

/// What may stand between `[` and the parameters.
#[derive(Clone, Copy, Debug, PartialEq, Eq, Structural)]
pub enum Introducer {
    /// Nothing.
    Plain,
    /// `?`
    Private,
    /// `=`
    Mode,
}

/// Whether `c` is a decimal digit.
pub open spec fn is_digit(c: char) -> bool {
    '0' <= c <= '9'
}

/// The number that the digit `c` stands for.
pub open spec fn digit_value(c: char) -> nat
    recommends
        is_digit(c),
{
    (c as u32 - '0' as u32) as nat
}

/// Whether `c` can be part of a parameter list.
pub open spec fn is_param_char(c: char) -> bool {
    is_digit(c) || c == ';'
}

/// The first position at or after `from` that holds no parameter character,
/// or the length of `s` if there is none.
pub open spec fn params_end(s: Seq<char>, from: int) -> int
    decreases s.len() - from,
{
    if 0 <= from < s.len() && is_param_char(s[from]) {
        params_end(s, from + 1)
    } else {
        from
    }
}

/// The parameters written in `body`, a text of digits and `;`. Reading from
/// the left, each `;` starts a new parameter and each digit extends the last
/// one. A parameter without digits is `None`.
pub open spec fn params_of(body: Seq<char>) -> Seq<Option<nat>>
    decreases body.len(),
{
    if body.len() == 0 {
        seq![None]
    } else {
        let before = params_of(body.drop_last());
        let c = body.last();
        if c == ';' {
            before.push(None)
        } else {
            let value = match before.last() {
                Some(v) => v * 10 + digit_value(c),
                None => digit_value(c),
            };
            before.drop_last().push(Some(value))
        }
    }
}

/// The value of a parameter, or `default` where it was left out.
pub open spec fn param_or(p: Option<nat>, default: nat) -> nat {
    match p {
        Some(v) => v,
        None => default,
    }
}

/// The parameters as rendition codes: a parameter left out is 0, and none
/// may exceed 255.
pub open spec fn sgr_codes(params: Seq<Option<nat>>) -> Option<Seq<u8>> {
    if forall|j: int| 0 <= j < params.len() ==> param_or(#[trigger] params[j], 0) <= 255 {
        Some(Seq::new(params.len(), |j: int| param_or(params[j], 0) as u8))
    } else {
        None
    }
}

/// What a sequence with one optional count is, by its final character.
pub open spec fn counted(fin: char, n: u16) -> Option<Sequence> {
    if fin == 'A' {
        Some(Sequence::CursorUp(n))
    } else if fin == 'B' {
        Some(Sequence::CursorDown(n))
    } else if fin == 'C' {
        Some(Sequence::CursorForward(n))
    } else if fin == 'D' {
        Some(Sequence::CursorBack(n))
    } else if fin == 'E' {
        Some(Sequence::CursorNextLine(n))
    } else if fin == 'F' {
        Some(Sequence::CursorPreviousLine(n))
    } else if fin == 'G' {
        Some(Sequence::CursorHorizontalAbs(n))
    } else if fin == 'J' {
        Some(Sequence::EraseDisplay(n))
    } else if fin == 'K' {
        Some(Sequence::EraseLine(n))
    } else if fin == 'S' {
        Some(Sequence::ScrollUp(n))
    } else if fin == 'T' {
        Some(Sequence::ScrollDown(n))
    } else {
        None
    }
}

/// What the sequence with the given introducer, parameters and final
/// character is, if it is one of the known sequences.
///
/// - `A B C D E F G J K S T` take one count, 1 if left out.
/// - `H` and `f` take a row and a column, each 1 if left out.
/// - `m` takes any number of codes, each 0 if left out.
/// - `5i`, `4i`, `6n`, `s` and `u` are written exactly so.
/// - `?25h` and `?25l` show and hide the cursor.
/// - `=` with one number and `h` or `l` sets or resets that mode.
///
/// A count must fit in 16 bits, a code or a mode in 8.
pub open spec fn interpret(intro: Introducer, params: Seq<Option<nat>>, fin: char) -> Option<
    Sequence,
> {
    match intro {
        Introducer::Plain => {
            if counted(fin, 1) is Some {
                if params.len() == 1 && param_or(params[0], 1) <= u16::MAX {
                    counted(fin, param_or(params[0], 1) as u16)
                } else {
                    None
                }
            } else if fin == 'H' || fin == 'f' {
                if 1 <= params.len() <= 2 && param_or(params[0], 1) <= u16::MAX && (params.len()
                    == 2 ==> param_or(params[1], 1) <= u16::MAX) {
                    let row = param_or(params[0], 1) as u16;
                    let col = if params.len() == 2 {
                        param_or(params[1], 1) as u16
                    } else {
                        1u16
                    };
                    if fin == 'H' {
                        Some(Sequence::CursorPos(row, col))
                    } else {
                        Some(Sequence::HorizontalVerticalPos(row, col))
                    }
                } else {
                    None
                }
            } else if fin == 'm' {
                match sgr_codes(params) {
                    Some(codes) => Some(Sequence::SelectGraphicRendition(codes)),
                    None => None,
                }
            } else if fin == 'i' && params == seq![Some(5nat)] {
                Some(Sequence::AuxPortOn)
            } else if fin == 'i' && params == seq![Some(4nat)] {
                Some(Sequence::AuxPortOff)
            } else if fin == 'n' && params == seq![Some(6nat)] {
                Some(Sequence::DeviceStatusReport)
            } else if fin == 's' && params == seq![None::<nat>] {
                Some(Sequence::SaveCurrentCursorPos)
            } else if fin == 'u' && params == seq![None::<nat>] {
                Some(Sequence::RestoreSavedCursorPos)
            } else {
                None
            }
        },
        Introducer::Private => {
            if fin == 'h' && params == seq![Some(25nat)] {
                Some(Sequence::CursorShow)
            } else if fin == 'l' && params == seq![Some(25nat)] {
                Some(Sequence::CursorHide)
            } else {
                None
            }
        },
        Introducer::Mode => {
            if params.len() == 1 && params[0] is Some && params[0]->0 <= u8::MAX {
                if fin == 'h' {
                    Some(Sequence::SetMode(params[0]->0 as u8))
                } else if fin == 'l' {
                    Some(Sequence::ResetMode(params[0]->0 as u8))
                } else {
                    None
                }
            } else {
                None
            }
        },
    }
}

/// The introducer that `s` shows at position 2.
pub open spec fn introducer_of(s: Seq<char>) -> Introducer {
    if s.len() > 2 && s[2] == '?' {
        Introducer::Private
    } else if s.len() > 2 && s[2] == '=' {
        Introducer::Mode
    } else {
        Introducer::Plain
    }
}

/// Where the parameters of the sequence at the head of `s` start.
pub open spec fn params_start(s: Seq<char>) -> int {
    if introducer_of(s) == Introducer::Plain {
        2
    } else {
        3
    }
}

/// The control sequence at the head of `s`, with the number of characters
/// it spans, if `s` starts with one.
pub open spec fn recognize(s: Seq<char>) -> Option<(Sequence, int)> {
    let start = params_start(s);
    let end = params_end(s, start);
    if s.len() >= 2 && s[0] == ESC && s[1] == '[' && end < s.len() {
        match interpret(introducer_of(s), params_of(s.subrange(start, end)), s[end]) {
            Some(seq) => Some((seq, end + 1)),
            None => None,
        }
    } else {
        None
    }
}

/// The first position at or after `from` that holds the escape character,
/// or the length of `s` if there is none.
pub open spec fn literal_end(s: Seq<char>, from: int) -> int
    decreases s.len() - from,
{
    if 0 <= from < s.len() && s[from] != ESC {
        literal_end(s, from + 1)
    } else {
        from
    }
}

/// The first token of a text that is not empty: what it is and how many
/// characters it spans.
pub open spec fn first_token(s: Seq<char>) -> (Sequence, int)
    recommends
        s.len() > 0,
{
    if s[0] == ESC {
        match recognize(s) {
            Some(found) => found,
            None => (Sequence::Escape, 1),
        }
    } else {
        (Sequence::Chars, literal_end(s, 0))
    }
}

/// One token as a value: its span and what it is.
pub ghost struct Token {
    pub chars: Seq<char>,
    pub ty: Sequence,
}

/// The tokens of `s`, in order.
pub open spec fn tokens(s: Seq<char>) -> Seq<Token>
    decreases s.len(),
    via tokens_decreases
{
    if s.len() == 0 {
        seq![]
    } else {
        let (ty, len) = first_token(s);
        seq![Token { chars: s.take(len), ty }] + tokens(s.skip(len))
    }
}

#[via_fn]
proof fn tokens_decreases(s: Seq<char>) {
    if s.len() > 0 {
        lemma_first_token_span(s);
    }
}

/// The spans of `toks`, one after the other.
pub open spec fn spans_of(toks: Seq<Token>) -> Seq<char>
    decreases toks.len(),
{
    if toks.len() == 0 {
        seq![]
    } else {
        toks[0].chars + spans_of(toks.skip(1))
    }
}

/// The parameters that start at `from` end inside the text, hold nothing
/// but digits and `;`, and are followed by something else.
pub proof fn lemma_params_end_bounds(s: Seq<char>, from: int)
    requires
        0 <= from <= s.len(),
    ensures
        from <= params_end(s, from) <= s.len(),
        forall|k: int| from <= k < params_end(s, from) ==> is_param_char(#[trigger] s[k]),
        params_end(s, from) < s.len() ==> !is_param_char(s[params_end(s, from)]),
    decreases s.len() - from,
{
    if from < s.len() && is_param_char(s[from]) {
        lemma_params_end_bounds(s, from + 1);
    }
}

/// The literal run that starts at `from` ends inside the text, holds no
/// escape character, and is followed by one if by anything.
pub proof fn lemma_literal_end_bounds(s: Seq<char>, from: int)
    requires
        0 <= from <= s.len(),
    ensures
        from <= literal_end(s, from) <= s.len(),
        forall|k: int| from <= k < literal_end(s, from) ==> #[trigger] s[k] != ESC,
        literal_end(s, from) < s.len() ==> s[literal_end(s, from)] == ESC,
    decreases s.len() - from,
{
    if from < s.len() && s[from] != ESC {
        lemma_literal_end_bounds(s, from + 1);
    }
}

/// Every token spans at least one character and no more than there are.
pub proof fn lemma_first_token_span(s: Seq<char>)
    requires
        s.len() > 0,
    ensures
        1 <= first_token(s).1 <= s.len(),
{
    if s[0] == ESC {
        if s.len() >= 2 {
            lemma_params_end_bounds(s, params_start(s));
        }
    } else {
        lemma_literal_end_bounds(s, 0);
        lemma_literal_end_bounds(s, 1);
    }
}

/// The spans of the tokens of a text, put together, are the text.
pub proof fn lemma_tokens_lossless(s: Seq<char>)
    ensures
        spans_of(tokens(s)) == s,
    decreases s.len(),
{
    if s.len() == 0 {
        assert(spans_of(tokens(s)) =~= s);
    } else {
        lemma_first_token_span(s);
        let (ty, len) = first_token(s);
        let head = Token { chars: s.take(len), ty };
        let toks = tokens(s);
        assert(toks == seq![head] + tokens(s.skip(len)));
        assert(toks[0] == head);
        assert(toks.skip(1) =~= tokens(s.skip(len)));
        lemma_tokens_lossless(s.skip(len));
        assert(s.take(len) + s.skip(len) =~= s);
    }
}

/// No token is empty, and there are no more tokens than characters.
pub proof fn lemma_tokens_progress(s: Seq<char>)
    ensures
        tokens(s).len() <= s.len(),
        forall|k: int| 0 <= k < tokens(s).len() ==> (#[trigger] tokens(s)[k]).chars.len() >= 1,
    decreases s.len(),
{
    if s.len() > 0 {
        lemma_first_token_span(s);
        let (ty, len) = first_token(s);
        lemma_tokens_progress(s.skip(len));
        let rest = tokens(s.skip(len));
        assert forall|k: int| 0 <= k < tokens(s).len() implies (#[trigger] tokens(
            s,
        )[k]).chars.len() >= 1 by {
            if k > 0 {
                assert(tokens(s)[k] == rest[k - 1]);
            }
        }
    }
}

/// A token: its span in the text, and what it is.
#[derive(Debug, PartialEq)]
pub struct Text<'a> {
    chars: &'a str,
    ty: AnsiEscapeSequence,
}

impl<'a> View for Text<'a> {
    type V = Token;

    closed spec fn view(&self) -> Token {
        Token { chars: self.chars@, ty: self.ty@ }
    }
}

impl<'a> Text<'a> {
    pub fn new(chars: &'a str, ty: AnsiEscapeSequence) -> (r: Self)
        ensures
            r@ == (Token { chars: chars@, ty: ty@ }),
    {
        Self { chars, ty }
    }

    /// The span of the token.
    pub fn chars(&self) -> (r: &'a str)
        ensures
            r@ == self@.chars,
    {
        self.chars
    }

    /// What the token is.
    pub fn ty(&self) -> (r: &AnsiEscapeSequence)
        ensures
            r@ == self@.ty,
    {
        &self.ty
    }
}

/// Something that holds text and can be split into tokens.
pub trait TextParser {
    /// The text held.
    spec fn text(&self) -> Seq<char>;

    /// A cursor at the start of the text.
    fn ansi_parse(&self) -> (r: TextIterator<'_>)
        ensures
            r@ == self.text(),
    ;
}

/// A cursor over a text that hands out its tokens one by one. Its value is
/// the text that is still to be read.
pub struct TextIterator<'a>(&'a str);

impl<'a> View for TextIterator<'a> {
    type V = Seq<char>;

    closed spec fn view(&self) -> Seq<char> {
        self.0@
    }
}

impl TextParser for str {
    open spec fn text(&self) -> Seq<char> {
        self@
    }

    fn ansi_parse(&self) -> (r: TextIterator<'_>) {
        TextIterator(self)
    }
}

impl TextParser for String {
    open spec fn text(&self) -> Seq<char> {
        self@
    }

    fn ansi_parse(&self) -> (r: TextIterator<'_>) {
        TextIterator(self.as_str())
    }
}

/// The largest value that a parameter is read up to; beyond it only the
/// fact that it is too large for any sequence matters.
const PARAM_CAP: u32 = 65536;

spec fn capped(p: Option<nat>) -> Option<u32> {
    match p {
        Some(v) => Some(
            if v < PARAM_CAP {
                v as u32
            } else {
                PARAM_CAP
            },
        ),
        None => None,
    }
}

/// `read` holds the parameters `params`, each read up to the cap.
spec fn reads(read: Seq<Option<u32>>, params: Seq<Option<nat>>) -> bool {
    &&& read.len() == params.len()
    &&& forall|j: int| 0 <= j < read.len() ==> #[trigger] read[j] == capped(params[j])
}

fn is_digit_char(c: char) -> (r: bool)
    ensures
        r == is_digit(c),
{
    '0' <= c && c <= '9'
}

fn digit_of(c: char) -> (r: u32)
    requires
        is_digit(c),
    ensures
        r == digit_value(c),
        r <= 9,
{
    c as u32 - '0' as u32
}

fn value_or(p: Option<u32>, default: u32) -> (r: u32)
    ensures
        r == match p {
            Some(v) => v,
            None => default,
        },
{
    match p {
        Some(v) => v,
        None => default,
    }
}

fn to_u16(v: u32) -> (r: u16)
    requires
        v <= u16::MAX,
    ensures
        r == v,
{
    v as u16
}

fn to_u8(v: u32) -> (r: u8)
    requires
        v <= u8::MAX,
    ensures
        r == v,
{
    v as u8
}

fn counted_sequence(fin: char, n: u16) -> (r: Option<AnsiEscapeSequence>)
    ensures
        r is Some == counted(fin, n) is Some,
        r is Some ==> r->0@ == counted(fin, n)->0,
{
    if fin == 'A' {
        Some(AnsiEscapeSequence::CursorUp(n))
    } else if fin == 'B' {
        Some(AnsiEscapeSequence::CursorDown(n))
    } else if fin == 'C' {
        Some(AnsiEscapeSequence::CursorForward(n))
    } else if fin == 'D' {
        Some(AnsiEscapeSequence::CursorBack(n))
    } else if fin == 'E' {
        Some(AnsiEscapeSequence::CursorNextLine(n))
    } else if fin == 'F' {
        Some(AnsiEscapeSequence::CursorPreviousLine(n))
    } else if fin == 'G' {
        Some(AnsiEscapeSequence::CursorHorizontalAbs(n))
    } else if fin == 'J' {
        Some(AnsiEscapeSequence::EraseDisplay(n))
    } else if fin == 'K' {
        Some(AnsiEscapeSequence::EraseLine(n))
    } else if fin == 'S' {
        Some(AnsiEscapeSequence::ScrollUp(n))
    } else if fin == 'T' {
        Some(AnsiEscapeSequence::ScrollDown(n))
    } else {
        None
    }
}

fn is_counted(fin: char) -> (r: bool)
    ensures
        r == counted(fin, 1) is Some,
        forall|n: u16| r == #[trigger] counted(fin, n) is Some,
{
    fin == 'A' || fin == 'B' || fin == 'C' || fin == 'D' || fin == 'E' || fin == 'F' || fin == 'G'
        || fin == 'J' || fin == 'K' || fin == 'S' || fin == 'T'
}

fn rendition_codes(read: &Vec<Option<u32>>, Ghost(params): Ghost<Seq<Option<nat>>>) -> (r: Option<
    Vec<u8>,
>)
    requires
        reads(read@, params),
    ensures
        r is Some == sgr_codes(params) is Some,
        r is Some ==> r->0@ == sgr_codes(params)->0,
{
    let mut codes: Vec<u8> = Vec::new();
    let mut j: usize = 0;
    while j < read.len()
        invariant
            j <= read.len(),
            reads(read@, params),
            codes@.len() == j,
            forall|k: int| 0 <= k < j ==> param_or(#[trigger] params[k], 0) <= 255,
            forall|k: int| 0 <= k < j ==> #[trigger] codes@[k] == param_or(params[k], 0) as u8,
        decreases read.len() - j,
    {
        let v: u32 = value_or(read[j], 0);
        assert(read@[j as int] == capped(params[j as int]));
        if v > 255 {
            assert(param_or(params[j as int], 0) > 255);
            return None;
        }
        codes.push(to_u8(v));
        j += 1;
    }
    assert(codes@ =~= sgr_codes(params)->0);
    Some(codes)
}

fn interpret_read(
    intro: Introducer,
    read: &Vec<Option<u32>>,
    fin: char,
    Ghost(params): Ghost<Seq<Option<nat>>>,
) -> (r: Option<AnsiEscapeSequence>)
    requires
        reads(read@, params),
        read.len() >= 1,
    ensures
        r is Some == interpret(intro, params, fin) is Some,
        r is Some ==> r->0@ == interpret(intro, params, fin)->0,
{
    let n: usize = read.len();
    assert(read@[0] == capped(params[0]));
    assert(n >= 2 ==> read@[1] == capped(params[1]));
    match intro {
        Introducer::Plain => {
            if is_counted(fin) {
                let v: u32 = value_or(read[0], 1);
                if n == 1 && v <= 65535 {
                    counted_sequence(fin, to_u16(v))
                } else {
                    None
                }
            } else if fin == 'H' || fin == 'f' {
                let row: u32 = value_or(read[0], 1);
                let col: u32 = if n >= 2 {
                    value_or(read[1], 1)
                } else {
                    1
                };
                if n <= 2 && row <= 65535 && col <= 65535 {
                    if fin == 'H' {
                        Some(AnsiEscapeSequence::CursorPos(to_u16(row), to_u16(col)))
                    } else {
                        Some(AnsiEscapeSequence::HorizontalVerticalPos(to_u16(row), to_u16(col)))
                    }
                } else {
                    None
                }
            } else if fin == 'm' {
                match rendition_codes(read, Ghost(params)) {
                    Some(codes) => Some(AnsiEscapeSequence::SelectGraphicRendition(codes)),
                    None => None,
                }
            } else {
                let only: Option<u32> = read[0];
                assert(n == 1 ==> (params =~= seq![params[0]]));
                if n != 1 {
                    None
                } else if fin == 'i' && only == Some(5u32) {
                    Some(AnsiEscapeSequence::AuxPortOn)
                } else if fin == 'i' && only == Some(4u32) {
                    Some(AnsiEscapeSequence::AuxPortOff)
                } else if fin == 'n' && only == Some(6u32) {
                    Some(AnsiEscapeSequence::DeviceStatusReport)
                } else if fin == 's' && only.is_none() {
                    Some(AnsiEscapeSequence::SaveCurrentCursorPos)
                } else if fin == 'u' && only.is_none() {
                    Some(AnsiEscapeSequence::RestoreSavedCursorPos)
                } else {
                    None
                }
            }
        },
        Introducer::Private => {
            let only: Option<u32> = read[0];
            assert(n == 1 ==> (params =~= seq![params[0]]));
            if n != 1 {
                None
            } else if fin == 'h' && only == Some(25u32) {
                Some(AnsiEscapeSequence::CursorShow)
            } else if fin == 'l' && only == Some(25u32) {
                Some(AnsiEscapeSequence::CursorHide)
            } else {
                None
            }
        },
        Introducer::Mode => {
            match read[0] {
                Some(v) => {
                    if n == 1 && v <= 255 {
                        if fin == 'h' {
                            Some(AnsiEscapeSequence::SetMode(to_u8(v)))
                        } else if fin == 'l' {
                            Some(AnsiEscapeSequence::ResetMode(to_u8(v)))
                        } else {
                            None
                        }
                    } else {
                        None
                    }
                },
                None => None,
            }
        },
    }
}

/// Reads the control sequence at the head of `s`: what it is and how many
/// characters it spans. `None` where `s` does not start with a known sequence.
pub fn parse(s: &str) -> (r: Option<(AnsiEscapeSequence, usize)>)
    ensures
        match r {
            Some((seq, len)) => recognize(s@) == Some((seq@, len as int)),
            None => recognize(s@) is None,
        },
{
    let n: usize = s.unicode_len();
    if n < 3 {
        proof {
            if n >= 2 {
                lemma_params_end_bounds(s@, params_start(s@));
            }
        }
        return None;
    }
    if s.get_char(0) != ESC || s.get_char(1) != '[' {
        return None;
    }
    let c: char = s.get_char(2);
    let intro: Introducer = if c == '?' {
        Introducer::Private
    } else if c == '=' {
        Introducer::Mode
    } else {
        Introducer::Plain
    };
    let start: usize = match intro {
        Introducer::Plain => 2,
        _ => 3,
    };
    assert(intro == introducer_of(s@));
    assert(start == params_start(s@));
    let mut done: Vec<Option<u32>> = Vec::new();
    let mut current: Option<u32> = None;
    let mut i: usize = start;
    let ghost mut params: Seq<Option<nat>> = seq![None];
    proof {
        assert(s@.subrange(start as int, start as int).len() == 0);
    }
    loop
        invariant
            n == s@.len(),
            start <= i <= n,
            params_end(s@, start as int) == params_end(s@, i as int),
            params == params_of(s@.subrange(start as int, i as int)),
            params.len() == done@.len() + 1,
            reads(done@.push(current), params),
        ensures
            i >= n || !is_param_char(s@[i as int]),
        decreases n - i,
    {
        if i >= n {
            break ;
        }
        let c: char = s.get_char(i);
        let ghost body = s@.subrange(start as int, i as int + 1);
        proof {
            assert(body.drop_last() == s@.subrange(start as int, i as int));
            assert(body.last() == c);
            assert(done@.push(current)[done@.len() as int] == current);
            assert(current == capped(params.last()));
        }
        if is_digit_char(c) {
            let d: u32 = digit_of(c);
            let next: u32 = match current {
                Some(v) => if v >= PARAM_CAP {
                    PARAM_CAP
                } else if v * 10 + d >= PARAM_CAP {
                    PARAM_CAP
                } else {
                    v * 10 + d
                },
                None => d,
            };
            proof {
                let extended = params_of(body);
                assert(extended.len() == params.len());
                assert(capped(extended.last()) == Some(next));
                assert forall|j: int| 0 <= j < extended.len() implies #[trigger] done@.push(
                    Some(next),
                )[j] == capped(extended[j]) by {
                    if j < done@.len() {
                        assert(done@.push(current)[j] == capped(params[j]));
                    }
                }
                params = extended;
            }
            current = Some(next);
        } else if c == ';' {
            proof {
                let extended = params_of(body);
                assert(extended == params.push(None));
                assert forall|j: int| 0 <= j < extended.len() implies #[trigger] done@.push(
                    current,
                ).push(None)[j] == capped(extended[j]) by {
                    if j < params.len() {
                        assert(done@.push(current)[j] == capped(params[j]));
                    }
                }
                params = extended;
            }
            done.push(current);
            current = None;
        } else {
            break ;
        }
        i += 1;
    }
    proof {
        lemma_params_end_bounds(s@, i as int);
    }
    if i >= n {
        return None;
    }
    let fin: char = s.get_char(i);
    assert(params_end(s@, start as int) == i);
    done.push(current);
    match interpret_read(intro, &done, fin, Ghost(params)) {
        Some(seq) => Some((seq, i + 1)),
        None => None,
    }
}

/// The first position of the escape character in `s`, or the length of `s`
/// in characters.
fn find_escape(s: &str, n: usize) -> (r: usize)
    requires
        n == s@.len(),
    ensures
        r == literal_end(s@, 0),
        r <= n,
{
    let mut pos: usize = 0;
    let mut found: bool = false;
    for c in it: s.chars()
        invariant
            it.seq() == s@,
            n == s@.len(),
            pos <= it.index(),
            found ==> literal_end(s@, 0) == pos,
            !found ==> pos == it.index() && literal_end(s@, 0) == literal_end(s@, pos as int),
    {
        if !found {
            if c == ESC {
                found = true;
            } else {
                pos += 1;
            }
        }
    }
    pos
}

impl<'a> TextIterator<'a> {
    /// Hands out the next token and moves past it. `None` once the text is
    /// read; until then every call takes at least one character.
    pub fn next(&mut self) -> (r: Option<Text<'a>>)
        ensures
            old(self)@.len() == 0 ==> r is None && final(self)@ == old(self)@,
            old(self)@.len() > 0 ==> {
                &&& r is Some
                &&& r->0@.ty == first_token(old(self)@).0
                &&& r->0@.chars == old(self)@.take(first_token(old(self)@).1)
                &&& final(self)@ == old(self)@.skip(first_token(old(self)@).1)
                &&& r->0@.chars.len() >= 1
                &&& r->0@.chars + final(self)@ == old(self)@
            },
    {
        let s: &'a str = self.0;
        let n: usize = s.unicode_len();
        if n == 0 {
            return None;
        }
        proof {
            lemma_first_token_span(s@);
        }
        let (ty, len): (AnsiEscapeSequence, usize) = if s.get_char(0) == ESC {
            match parse(s) {
                Some((seq, len)) => (seq, len),
                None => (AnsiEscapeSequence::Escape, 1),
            }
        } else {
            (AnsiEscapeSequence::Chars, find_escape(s, n))
        };
        let span: &'a str = s.substring_char(0, len);
        self.0 = s.substring_char(len, n);
        proof {
            assert(s@.subrange(0, len as int) == s@.take(len as int));
            assert(s@.subrange(len as int, n as int) == s@.skip(len as int));
            assert(s@.take(len as int) + s@.skip(len as int) =~= s@);
        }
        Some(Text::new(span, ty))
    }

    /// Whether the text is read to its end.
    pub fn is_done(&self) -> (r: bool)
        ensures
            r == (self@.len() == 0),
    {
        self.0.unicode_len() == 0
    }
}

/// All tokens of `s`, in order.
pub fn tokenize<'a>(s: &'a str) -> (r: Vec<Text<'a>>)
    ensures
        r@.len() == tokens(s@).len(),
        forall|k: int| 0 <= k < r@.len() ==> (#[trigger] r@[k])@ == tokens(s@)[k],
        spans_of(tokens(s@)) == s@,
{
    let mut cursor: TextIterator<'a> = TextIterator(s);
    let mut out: Vec<Text<'a>> = Vec::new();
    proof {
        lemma_tokens_lossless(s@);
    }
    loop
        invariant
            tokens(s@).len() == out@.len() + tokens(cursor@).len(),
            forall|k: int| 0 <= k < out@.len() ==> (#[trigger] out@[k])@ == tokens(s@)[k],
            forall|k: int|
                0 <= k < tokens(cursor@).len() ==> tokens(s@)[out@.len() + k] == #[trigger] tokens(
                    cursor@,
                )[k],
        ensures
            cursor@.len() == 0,
        decreases cursor@.len(),
    {
        let ghost before = cursor@;
        match cursor.next() {
            Some(token) => {
                proof {
                    let rest = tokens(cursor@);
                    assert(tokens(before) == seq![token@] + rest);
                    assert(tokens(before)[0] == token@);
                    assert forall|k: int| 0 <= k < rest.len() implies tokens(s@)[out@.len() + 1
                        + k] == #[trigger] rest[k] by {
                        assert(tokens(before)[k + 1] == rest[k]);
                    }
                }
                out.push(token);
            },
            None => {
                break ;
            },
        }
    }
    out
}

} // verus!
