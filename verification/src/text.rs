//! Wrapping text to a display width.
//!
//! Text is first split at line breaks. A line that is longer than the width
//! is then cut into chunks of `width` visible characters. Characters that
//! belong to an escape sequence are not visible: the escape character opens
//! a sequence and the next `m` closes it. A cut falls right behind a visible
//! character, so no sequence is ever cut in two.

use crate::ansi::ESC;
use crate::span::{generate_spans, line_runs, Run, Spans};
use crate::util::{lemma_texts_push, texts, to_chars};
use vstd::prelude::*;

verus! {

/// Whether an escape sequence is open after the first `i` characters of `s`.
pub open spec fn in_escape(s: Seq<char>, i: int) -> bool
    decreases i,
{
    if i <= 0 || i > s.len() {
        false
    } else if s[i - 1] == ESC {
        true
    } else if s[i - 1] == 'm' {
        false
    } else {
        in_escape(s, i - 1)
    }
}

/// Whether the character at position `i` of `s` takes a cell on screen.
pub open spec fn is_visible(s: Seq<char>, i: int) -> bool {
    0 <= i < s.len() && s[i] != ESC && !in_escape(s, i)
}

/// How many of the first `i` characters of `s` are visible.
pub open spec fn visible_count(s: Seq<char>, i: int) -> nat
    decreases i,
{
    if i <= 0 {
        0
    } else {
        visible_count(s, i - 1) + if is_visible(s, i - 1) {
            1nat
        } else {
            0nat
        }
    }
}

/// How many characters of `s` are visible.
pub open spec fn visible_width(s: Seq<char>) -> nat {
    visible_count(s, s.len() as int)
}

/// The first position after `from` before which `s` holds `width` visible
/// characters, or the length of `s` if it holds fewer.
pub open spec fn cut_after(s: Seq<char>, width: nat, from: int) -> int
    decreases s.len() - from,
{
    if from < 0 || from >= s.len() {
        s.len() as int
    } else if visible_count(s, from + 1) >= width {
        from + 1
    } else {
        cut_after(s, width, from + 1)
    }
}

/// The chunks that `s` is cut into: each but the last holds exactly `width`
/// visible characters and ends with one. What is left behind the last
/// visible character of `s` once a cut fell right behind it is dropped.
pub open spec fn chunks(s: Seq<char>, width: nat) -> Seq<Seq<char>>
    decreases s.len(),
    via chunks_decreases
{
    if visible_width(s) == 0 || width == 0 {
        seq![]
    } else {
        let k = cut_after(s, width, 0);
        seq![s.take(k)] + chunks(s.skip(k), width)
    }
}

#[via_fn]
proof fn chunks_decreases(s: Seq<char>, width: nat) {
    if visible_width(s) != 0 && width != 0 {
        lemma_cut_after(s, width, 0);
    }
}

/// The display lines of one line of text: the line itself where it is no
/// longer than `width` or shows nothing, its chunks otherwise.
pub open spec fn wrap_segment(s: Seq<char>, width: nat) -> Seq<Seq<char>> {
    if s.len() <= width || visible_width(s) == 0 {
        seq![s]
    } else {
        chunks(s, width)
    }
}

/// The first position at or after `from` that holds a line feed, or the
/// length of `s` if there is none.
pub open spec fn line_end(s: Seq<char>, from: int) -> int
    decreases s.len() - from,
{
    if 0 <= from < s.len() && s[from] != '\n' {
        line_end(s, from + 1)
    } else {
        from
    }
}

/// `line` without the carriage return at its end, if it has one.
pub open spec fn strip_cr(line: Seq<char>) -> Seq<char> {
    if line.len() > 0 && line.last() == '\r' {
        line.drop_last()
    } else {
        line
    }
}

/// The lines of `s`. A line ends with a line feed, or with a carriage
/// return and a line feed; neither belongs to the line. What follows the
/// last line feed is a line too, unless it is empty.
pub open spec fn split_lines(s: Seq<char>) -> Seq<Seq<char>>
    decreases s.len(),
    via split_lines_decreases
{
    if s.len() == 0 {
        seq![]
    } else {
        let e = line_end(s, 0);
        if e >= s.len() {
            seq![s]
        } else {
            seq![strip_cr(s.take(e))] + split_lines(s.skip(e + 1))
        }
    }
}

#[via_fn]
proof fn split_lines_decreases(s: Seq<char>) {
    if s.len() != 0 {
        lemma_line_end(s, 0);
    }
}

/// The display lines of several lines of text, in order.
pub open spec fn wrap_segments(lines: Seq<Seq<char>>, width: nat) -> Seq<Seq<char>>
    decreases lines.len(),
{
    if lines.len() == 0 {
        seq![]
    } else {
        wrap_segment(lines[0], width) + wrap_segments(lines.skip(1), width)
    }
}

/// The width that is wrapped to: `width`, but at least 1.
pub open spec fn effective_width(width: nat) -> nat {
    if width == 0 {
        1
    } else {
        width
    }
}

/// The display lines of one item: one empty line for an empty item, else
/// the display lines of its lines.
pub open spec fn wrap_text(text: Seq<char>, width: nat) -> Seq<Seq<char>> {
    if text.len() == 0 {
        seq![Seq::<char>::empty()]
    } else {
        wrap_segments(split_lines(text), effective_width(width))
    }
}

/// The display lines of all items, in order.
pub open spec fn wrap_all(items: Seq<Seq<char>>, width: nat) -> Seq<Seq<char>>
    decreases items.len(),
{
    if items.len() == 0 {
        seq![]
    } else {
        wrap_all(items.drop_last(), width) + wrap_text(items.last(), width)
    }
}

/// A line that starts at `from` ends inside the text, at a line feed if
/// not at the end of the text.
pub proof fn lemma_line_end(s: Seq<char>, from: int)
    requires
        0 <= from <= s.len(),
    ensures
        from <= line_end(s, from) <= s.len(),
        line_end(s, from) < s.len() ==> s[line_end(s, from)] == '\n',
    decreases s.len() - from,
{
    if from < s.len() && s[from] != '\n' {
        lemma_line_end(s, from + 1);
    }
}

/// No more characters are visible than there are.
pub proof fn lemma_visible_count_bounds(s: Seq<char>, i: int, j: int)
    requires
        0 <= i <= j,
    ensures
        visible_count(s, i) <= visible_count(s, j),
        visible_count(s, j) - visible_count(s, i) <= j - i,
    decreases j - i,
{
    if i < j {
        lemma_visible_count_bounds(s, i, j - 1);
    }
}

/// What is visible in the first `j` characters does not depend on what
/// follows them.
pub proof fn lemma_visible_prefix(s: Seq<char>, k: int, j: int)
    requires
        0 <= j <= k <= s.len(),
    ensures
        in_escape(s.take(k), j) == in_escape(s, j),
        visible_count(s.take(k), j) == visible_count(s, j),
    decreases j,
{
    if j > 0 {
        lemma_visible_prefix(s, k, j - 1);
        assert(s.take(k)[j - 1] == s[j - 1]);
    }
}

/// Behind a position where no sequence is open, what is visible can be
/// counted as if the text started there.
pub proof fn lemma_visible_suffix(s: Seq<char>, k: int, j: int)
    requires
        0 <= k <= s.len(),
        0 <= j <= s.len() - k,
        !in_escape(s, k),
    ensures
        in_escape(s.skip(k), j) == in_escape(s, k + j),
        visible_count(s.skip(k), j) == visible_count(s, k + j) - visible_count(s, k),
    decreases j,
{
    if j > 0 {
        lemma_visible_suffix(s, k, j - 1);
        assert(s.skip(k)[j - 1] == s[k + j - 1]);
    }
}

/// A cut lies behind the position where the search for it starts, and
/// what stands before it shows no more than `width` characters.
pub proof fn lemma_cut_after(s: Seq<char>, width: nat, from: int)
    requires
        0 <= from <= s.len(),
        width >= 1,
        visible_count(s, from) < width,
    ensures
        from <= cut_after(s, width, from) <= s.len(),
        from < s.len() ==> from < cut_after(s, width, from),
        visible_count(s, cut_after(s, width, from)) <= width,
        cut_after(s, width, from) < s.len() ==> visible_count(s, cut_after(s, width, from))
            == width,
        visible_width(s) >= width ==> visible_count(s, cut_after(s, width, from)) == width
            && is_visible(s, cut_after(s, width, from) - 1),
        visible_width(s) < width ==> cut_after(s, width, from) == s.len(),
    decreases s.len() - from,
{
    if from < s.len() {
        if visible_count(s, from + 1) >= width {
            lemma_visible_count_bounds(s, from + 1, s.len() as int);
        } else {
            lemma_cut_after(s, width, from + 1);
        }
    }
}

/// No chunk shows more than `width` characters.
pub proof fn lemma_chunks_width(s: Seq<char>, width: nat)
    requires
        width >= 1,
    ensures
        forall|k: int|
            0 <= k < chunks(s, width).len() ==> visible_width(#[trigger] chunks(s, width)[k])
                <= width,
    decreases s.len(),
{
    if visible_width(s) != 0 {
        lemma_cut_after(s, width, 0);
        let c = cut_after(s, width, 0);
        lemma_chunks_width(s.skip(c), width);
        lemma_visible_prefix(s, c, c);
        let rest = chunks(s.skip(c), width);
        assert forall|k: int| 0 <= k < chunks(s, width).len() implies visible_width(
            #[trigger] chunks(s, width)[k],
        ) <= width by {
            if k > 0 {
                assert(chunks(s, width)[k] == rest[k - 1]);
            }
        }
    }
}

/// A wrapped segment is one line at least, and none of its lines shows
/// more than `width` characters.
pub proof fn lemma_wrap_segment_width(s: Seq<char>, width: nat)
    requires
        width >= 1,
    ensures
        wrap_segment(s, width).len() >= 1,
        forall|k: int|
            0 <= k < wrap_segment(s, width).len() ==> visible_width(
                #[trigger] wrap_segment(s, width)[k],
            ) <= width,
{
    lemma_visible_count_bounds(s, 0, s.len() as int);
    lemma_chunks_width(s, width);
    if !(s.len() <= width || visible_width(s) == 0) {
        lemma_cut_after(s, width, 0);
    }
}

/// Wrapped segments are as many lines as there are segments at least,
/// and none of them shows more than `width` characters.
pub proof fn lemma_wrap_segments_width(lines: Seq<Seq<char>>, width: nat)
    requires
        width >= 1,
    ensures
        wrap_segments(lines, width).len() >= lines.len(),
        forall|k: int|
            0 <= k < wrap_segments(lines, width).len() ==> visible_width(
                #[trigger] wrap_segments(lines, width)[k],
            ) <= width,
    decreases lines.len(),
{
    if lines.len() > 0 {
        lemma_wrap_segment_width(lines[0], width);
        lemma_wrap_segments_width(lines.skip(1), width);
        let head = wrap_segment(lines[0], width);
        let rest = wrap_segments(lines.skip(1), width);
        assert forall|k: int| 0 <= k < wrap_segments(lines, width).len() implies visible_width(
            #[trigger] wrap_segments(lines, width)[k],
        ) <= width by {
            if k < head.len() {
                assert(wrap_segments(lines, width)[k] == head[k]);
            } else {
                assert(wrap_segments(lines, width)[k] == rest[k - head.len()]);
            }
        }
    }
}

/// Text that is not empty has at least one line.
pub proof fn lemma_split_lines_some(s: Seq<char>)
    requires
        s.len() > 0,
    ensures
        split_lines(s).len() >= 1,
{
}

/// Every item gives at least one display line, and no display line shows
/// more characters than the width that is wrapped to.
pub proof fn lemma_wrap_text_width(text: Seq<char>, width: nat)
    ensures
        wrap_text(text, width).len() >= 1,
        forall|k: int|
            0 <= k < wrap_text(text, width).len() ==> visible_width(
                #[trigger] wrap_text(text, width)[k],
            ) <= effective_width(width),
{
    if text.len() > 0 {
        lemma_split_lines_some(text);
        lemma_wrap_segments_width(split_lines(text), effective_width(width));
    }
}

/// Wrapping gives at least one display line for each item, and no display
/// line shows more characters than the width that is wrapped to.
pub proof fn lemma_wrap_width(items: Seq<Seq<char>>, width: nat)
    ensures
        wrap_all(items, width).len() >= items.len(),
        forall|k: int|
            0 <= k < wrap_all(items, width).len() ==> visible_width(
                #[trigger] wrap_all(items, width)[k],
            ) <= effective_width(width),
    decreases items.len(),
{
    if items.len() > 0 {
        lemma_wrap_width(items.drop_last(), width);
        lemma_wrap_text_width(items.last(), width);
        let head = wrap_all(items.drop_last(), width);
        let tail = wrap_text(items.last(), width);
        assert forall|k: int| 0 <= k < wrap_all(items, width).len() implies visible_width(
            #[trigger] wrap_all(items, width)[k],
        ) <= effective_width(width) by {
            if k < head.len() {
                assert(wrap_all(items, width)[k] == head[k]);
            } else {
                assert(wrap_all(items, width)[k] == tail[k - head.len()]);
            }
        }
    }
}

/// Appends the display lines of the line `chars[lo..hi]` to `ret`.
fn wrap_segment_into(
    text: &str,
    chars: &Vec<char>,
    lo: usize,
    hi: usize,
    width: usize,
    ret: &mut Vec<String>,
)
    requires
        chars@ == text@,
        lo <= hi <= chars.len(),
        width >= 1,
    ensures
        texts(final(ret)@) == texts(old(ret)@) + wrap_segment(
            chars@.subrange(lo as int, hi as int),
            width as nat,
        ),
{
    let ghost seg = chars@.subrange(lo as int, hi as int);
    let ghost before = texts(ret@);
    if hi - lo <= width {
        let line: String = text.substring_char(lo, hi).to_owned();
        proof {
            lemma_texts_push(ret@, line);
        }
        ret.push(line);
        assert(texts(ret@) =~= before + wrap_segment(seg, width as nat));
        return ;
    }
    let mut start: usize = lo;
    let mut count: usize = 0;
    let mut open: bool = false;
    let mut i: usize = lo;
    assert(seg.skip(0) == seg);
    assert(chunks(seg, width as nat) == Seq::<Seq<char>>::empty() + chunks(seg, width as nat));
    while i < hi
        invariant
            chars@ == text@,
            lo <= start <= i <= hi <= chars.len(),
            width >= 1,
            seg == chars@.subrange(lo as int, hi as int),
            open == in_escape(seg.skip(start - lo), i - start),
            count == visible_count(seg.skip(start - lo), i - start),
            count < width,
            cut_after(seg.skip(start - lo), width as nat, 0) == cut_after(
                seg.skip(start - lo),
                width as nat,
                i - start,
            ) || visible_count(seg.skip(start - lo), i - start) >= width,
            start > lo ==> visible_width(seg) > 0,
            start == lo ==> texts(ret@) == before,
            texts(ret@) + chunks(seg.skip(start - lo), width as nat) == before + chunks(
                seg,
                width as nat,
            ),
        decreases hi - i,
    {
        let ghost rem = seg.skip(start - lo);
        let ghost j = i - start;
        let c: char = chars[i];
        assert(rem[j] == c);
        if c == ESC {
            open = true;
        } else if c == 'm' && open {
            open = false;
        } else if !open {
            assert(is_visible(rem, j));
            count += 1;
            if count == width {
                let line: String = text.substring_char(start, i + 1).to_owned();
                proof {
                    lemma_visible_count_bounds(rem, j + 1, rem.len() as int);
                    assert(cut_after(rem, width as nat, 0) == j + 1);
                    assert(line@ == rem.take(j + 1));
                    assert(rem.skip(j + 1) == seg.skip(i + 1 - lo));
                    lemma_texts_push(ret@, line);
                    assert(chunks(rem, width as nat) == seq![rem.take(j + 1)] + chunks(
                        rem.skip(j + 1),
                        width as nat,
                    ));
                    assert(texts(ret@).push(line@) + chunks(rem.skip(j + 1), width as nat)
                        =~= texts(ret@) + chunks(rem, width as nat));
                    if start == lo {
                        assert(rem == seg);
                    } else {
                    }
                    assert(visible_width(seg) > 0) by {
                        if start == lo {
                            assert(visible_width(rem) > 0);
                        }
                    }
                }
                ret.push(line);
                start = i + 1;
                count = 0;
            }
        }
        i += 1;
    }
    let ghost rem = seg.skip(start - lo);
    assert(rem.len() == hi - start);
    if count > 0 {
        let line: String = text.substring_char(start, hi).to_owned();
        proof {
            lemma_cut_after(rem, width as nat, 0);
            assert(line@ == rem.take(rem.len() as int));
            assert(rem.skip(rem.len() as int).len() == 0);
            assert(chunks(rem.skip(rem.len() as int), width as nat) == Seq::<Seq<char>>::empty());
            lemma_texts_push(ret@, line);
            assert(texts(ret@).push(line@) =~= texts(ret@) + chunks(rem, width as nat));
            if start == lo {
                assert(rem == seg);
            }
        }
        ret.push(line);
    } else if start == lo {
        let line: String = text.substring_char(lo, hi).to_owned();
        proof {
            assert(rem == seg);
            lemma_texts_push(ret@, line);
            assert(texts(ret@).push(line@) =~= before + seq![seg]);
        }
        ret.push(line);
    } else {
        assert(chunks(rem, width as nat) == Seq::<Seq<char>>::empty());
        assert(texts(ret@) =~= before + chunks(seg, width as nat));
    }
}

/// The display lines of one item. A width of 0 counts as 1.
pub fn wrap_line(text: &String, width: usize) -> (r: Vec<String>)
    ensures
        texts(r@) == wrap_text(text@, width as nat),
{
    let w: usize = if width == 0 {
        1
    } else {
        width
    };
    let mut ret: Vec<String> = Vec::new();
    let chars: Vec<char> = to_chars(text.as_str());
    let n: usize = chars.len();
    if n == 0 {
        let line: String = String::new();
        proof {
            lemma_texts_push(ret@, line);
        }
        ret.push(line);
        assert(texts(ret@) =~= seq![Seq::<char>::empty()]);
        return ret;
    }
    let mut p: usize = 0;
    assert(chars@.skip(0) == chars@);
    assert(texts(ret@) =~= Seq::<Seq<char>>::empty());
    assert(texts(ret@) + wrap_segments(split_lines(chars@), w as nat) =~= wrap_segments(
        split_lines(chars@),
        w as nat,
    ));
    while p < n
        invariant
            chars@ == text@,
            n == chars.len(),
            p <= n,
            w >= 1,
            texts(ret@) + wrap_segments(split_lines(chars@.skip(p as int)), w as nat)
                == wrap_segments(split_lines(chars@), w as nat),
        decreases n - p,
    {
        let ghost rest = chars@.skip(p as int);
        let mut e: usize = p;
        while e < n && chars[e] != '\n'
            invariant
                p <= e <= n,
                n == chars.len(),
                rest == chars@.skip(p as int),
                line_end(rest, 0) == line_end(rest, e - p),
            decreases n - e,
        {
            assert(rest[e - p] == chars@[e as int]);
            e += 1;
        }
        proof {
            if e < n {
                assert(rest[e - p] == chars@[e as int]);
            }
            assert(line_end(rest, 0) == e - p);
        }
        if e == n {
            proof {
                assert(split_lines(rest) == seq![rest]);
                assert(rest == chars@.subrange(p as int, n as int));
                assert(seq![rest].skip(1) =~= Seq::<Seq<char>>::empty());
                assert(seq![rest][0] == rest);
                assert(wrap_segments(seq![rest].skip(1), w as nat) =~= Seq::<Seq<char>>::empty());
                assert(wrap_segments(seq![rest], w as nat) =~= wrap_segment(rest, w as nat));
                assert(chars@.skip(n as int).len() == 0);
            }
            wrap_segment_into(text.as_str(), &chars, p, n, w, &mut ret);
            p = n;
            proof {
                assert(split_lines(chars@.skip(n as int)) == Seq::<Seq<char>>::empty());
                assert(texts(ret@) + wrap_segments(Seq::<Seq<char>>::empty(), w as nat)
                    =~= texts(ret@));
            }
        } else {
            let hi: usize = if e > p && chars[e - 1] == '\r' {
                e - 1
            } else {
                e
            };
            proof {
                let line = rest.take(e - p);
                assert(line == chars@.subrange(p as int, e as int));
                if e > p {
                    assert(line.last() == chars@[e - 1]);
                }
                assert(strip_cr(line) == chars@.subrange(p as int, hi as int));
                assert(rest.skip(e - p + 1) == chars@.skip(e + 1));
                let tail = split_lines(chars@.skip(e + 1));
                assert(split_lines(rest) == seq![strip_cr(line)] + tail);
                assert((seq![strip_cr(line)] + tail).skip(1) =~= tail);
                assert(wrap_segments(split_lines(rest), w as nat) == wrap_segment(
                    strip_cr(line),
                    w as nat,
                ) + wrap_segments(tail, w as nat));
            }
            let ghost so_far = texts(ret@);
            wrap_segment_into(text.as_str(), &chars, p, hi, w, &mut ret);
            proof {
                let added = wrap_segment(chars@.subrange(p as int, hi as int), w as nat);
                let tail = wrap_segments(split_lines(chars@.skip(e + 1)), w as nat);
                assert((so_far + added) + tail =~= so_far + (added + tail));
            }
            p = e + 1;
        }
    }
    proof {
        assert(chars@.skip(n as int).len() == 0);
        assert(texts(ret@) + Seq::<Seq<char>>::empty() =~= texts(ret@));
    }
    ret
}

/// The display lines of `lines`, item after item. A width of 0 counts as 1.
pub fn wrap(lines: &Vec<String>, width: usize) -> (r: Vec<String>)
    ensures
        texts(r@) == wrap_all(texts(lines@), width as nat),
        r@.len() >= lines@.len(),
        forall|k: int|
            0 <= k < r@.len() ==> visible_width(#[trigger] r@[k]@) <= effective_width(
                width as nat,
            ),
{
    let mut ret: Vec<String> = Vec::new();
    let mut i: usize = 0;
    assert(texts(lines@).take(0) =~= Seq::<Seq<char>>::empty());
    assert(texts(ret@) =~= Seq::<Seq<char>>::empty());
    while i < lines.len()
        invariant
            i <= lines.len(),
            texts(ret@) == wrap_all(texts(lines@).take(i as int), width as nat),
        decreases lines.len() - i,
    {
        let mut wrapped: Vec<String> = wrap_line(&lines[i], width);
        proof {
            let upto = texts(lines@).take(i + 1);
            assert(upto.drop_last() =~= texts(lines@).take(i as int));
            assert(upto.last() == lines@[i as int]@);
            assert(texts(ret@ + wrapped@) =~= texts(ret@) + texts(wrapped@));
        }
        ret.append(&mut wrapped);
        i += 1;
    }
    proof {
        assert(texts(lines@).take(lines@.len() as int) =~= texts(lines@));
        lemma_wrap_width(texts(lines@), width as nat);
        assert forall|k: int| 0 <= k < ret@.len() implies visible_width(#[trigger] ret@[k]@)
            <= effective_width(width as nat) by {
            assert(texts(ret@)[k] == ret@[k]@);
        }
        assert(texts(ret@).len() == ret@.len());
    }
    ret
}

/// The cells that a border takes from a width or a height.
pub const BORDER_WIDTH: u64 = 2;

/// Where a text buffer is scrolled to.
#[derive(Clone, Copy, Debug)]
pub struct TextState {
    scroll: u64,
}

impl View for TextState {
    type V = u64;

    closed spec fn view(&self) -> u64 {
        self.scroll
    }
}

impl TextState {
    pub fn select(&mut self, index: u64)
        ensures
            final(self)@ == index,
    {
        self.scroll = index;
    }

    pub fn selected(&self) -> (r: u64)
        ensures
            r == self@,
    {
        self.scroll
    }
}

impl Default for TextState {
    fn default() -> (r: TextState)
        ensures
            r@ == 0,
    {
        TextState { scroll: 0 }
    }
}

/// The mathematical value of a text buffer.
pub ghost struct Buffer {
    /// The items as they were handed in.
    pub items: Seq<Seq<char>>,
    /// The display lines, each as its runs.
    pub lines: Seq<Seq<Run>>,
    /// The display line that the view starts at.
    pub offset: u64,
    /// How far the buffer can be scrolled.
    pub rows: u64,
}

/// A growing collection of display lines with a scroll position.
pub struct Text {
    items: Vec<String>,
    state: TextState,
    spans: Vec<Spans>,
    row_size: u64,
}

/// The runs of each of the display lines `wrapped`.
pub open spec fn lines_of(wrapped: Seq<Seq<char>>) -> Seq<Seq<Run>> {
    Seq::new(wrapped.len(), |i: int| line_runs(wrapped[i]))
}

/// The width that is left inside a border, as far as the machine counts.
pub open spec fn inner_width(width: u64) -> nat {
    if width <= BORDER_WIDTH {
        0
    } else if width - BORDER_WIDTH > usize::MAX {
        usize::MAX as nat
    } else {
        (width - BORDER_WIDTH) as nat
    }
}

/// How far `count` display lines can be scrolled in a frame of the given
/// height: the lines that do not fit inside the border, as far as the
/// machine counts.
pub open spec fn row_count(count: nat, height: u64) -> u64 {
    let rows = count - (height - BORDER_WIDTH);
    if rows < 0 {
        0
    } else if rows > u64::MAX {
        u64::MAX
    } else {
        rows as u64
    }
}

/// `target`, brought into `0..=rows`.
pub open spec fn clamp_scroll(target: int, rows: u64) -> u64 {
    if target < 0 {
        0
    } else if target > rows {
        rows
    } else {
        target as u64
    }
}

/// A step that moves the view of a text buffer.
pub ghost enum Scroll {
    Top,
    Bottom,
    Down(u64),
    Up(u64),
}

/// Where the view starts after `step`, when it started at `offset` and the
/// buffer can be scrolled by `rows`.
pub open spec fn scroll_by(offset: u64, rows: u64, step: Scroll) -> u64 {
    match step {
        Scroll::Top => 0,
        Scroll::Bottom => rows,
        Scroll::Down(n) => clamp_scroll(offset + n, rows),
        Scroll::Up(n) => clamp_scroll(offset - n, rows),
    }
}

/// Where the view starts after all of `steps`, taken in order.
pub open spec fn scroll_through(offset: u64, rows: u64, steps: Seq<Scroll>) -> u64
    decreases steps.len(),
{
    if steps.len() == 0 {
        offset
    } else {
        scroll_by(scroll_through(offset, rows, steps.drop_last()), rows, steps.last())
    }
}

/// After any scroll steps, at least one, the view starts within
/// `0..=rows`; so it does after none, if it did before.
pub proof fn lemma_scroll_stays_in_bounds(offset: u64, rows: u64, steps: Seq<Scroll>)
    requires
        steps.len() > 0 || offset <= rows,
    ensures
        0 <= scroll_through(offset, rows, steps) <= rows,
    decreases steps.len(),
{
    if steps.len() > 1 {
        lemma_scroll_stays_in_bounds(offset, rows, steps.drop_last());
    }
}

/// Scrolling to the bottom puts the view at the bottom, whatever came
/// before.
pub proof fn lemma_bottom_is_bottom(offset: u64, rows: u64, steps: Seq<Scroll>)
    ensures
        scroll_through(offset, rows, steps.push(Scroll::Bottom)) == rows,
{
    assert(steps.push(Scroll::Bottom).last() == Scroll::Bottom);
}

impl View for Text {
    type V = Buffer;

    closed spec fn view(&self) -> Buffer {
        Buffer {
            items: texts(self.items@),
            lines: Seq::new(self.spans@.len(), |i: int| self.spans@[i]@),
            offset: self.state@,
            rows: self.row_size,
        }
    }
}

impl Default for Text {
    fn default() -> (r: Text)
        ensures
            r@ == (Buffer { items: seq![], lines: seq![], offset: 0, rows: 0 }),
    {
        let r = Text {
            items: Vec::new(),
            state: TextState::default(),
            spans: Vec::new(),
            row_size: 0,
        };
        assert(r@.items =~= Seq::<Seq<char>>::empty());
        assert(r@.lines =~= Seq::<Seq<Run>>::empty());
        r
    }
}

impl Text {
    /// A buffer that holds `items`, not wrapped yet: it shows one line
    /// without runs.
    pub fn new(items: Vec<String>) -> (r: Text)
        ensures
            r@ == (Buffer {
                items: texts(items@),
                lines: seq![Seq::<Run>::empty()],
                offset: 0,
                rows: 0,
            }),
    {
        let mut spans: Vec<Spans> = Vec::new();
        let line: Spans = Spans::new(Vec::new());
        assert(line@ =~= Seq::<Run>::empty());
        spans.push(line);
        let r = Text { items, state: TextState::default(), spans, row_size: 0 };
        assert(r@.lines[0] == line@);
        assert(r@.lines =~= seq![Seq::<Run>::empty()]);
        r
    }

    /// Puts the view at `scroll`, wherever that is.
    pub fn select(&mut self, scroll: u64)
        ensures
            final(self)@ == (Buffer { offset: scroll, ..old(self)@ }),
    {
        self.state.select(scroll);
    }

    pub fn state(&self) -> (r: TextState)
        ensures
            r@ == self@.offset,
    {
        self.state
    }

    pub fn selected(&self) -> (r: u64)
        ensures
            r == self@.offset,
    {
        self.state.selected()
    }

    pub fn scroll_top(&mut self)
        ensures
            final(self)@ == (Buffer {
                offset: scroll_by(old(self)@.offset, old(self)@.rows, Scroll::Top),
                ..old(self)@
            }),
    {
        self.state.select(0);
    }

    pub fn scroll_bottom(&mut self)
        ensures
            final(self)@ == (Buffer {
                offset: scroll_by(old(self)@.offset, old(self)@.rows, Scroll::Bottom),
                ..old(self)@
            }),
    {
        self.state.select(self.row_size);
    }

    pub fn is_bottom(&self) -> (r: bool)
        ensures
            r == (self@.offset == self@.rows),
    {
        self.selected() == self.row_size
    }

    /// Moves the view down by `index` lines, but not past the bottom.
    pub fn scroll_down(&mut self, index: u64)
        ensures
            final(self)@ == (Buffer {
                offset: scroll_by(old(self)@.offset, old(self)@.rows, Scroll::Down(index)),
                ..old(self)@
            }),
    {
        let at: u64 = self.state.selected();
        let to: u64 = if at >= self.row_size || index >= self.row_size - at {
            self.row_size
        } else {
            at + index
        };
        self.state.select(to);
    }

    /// Moves the view up by `index` lines, but not past the top, and not
    /// below the bottom where it started below it.
    pub fn scroll_up(&mut self, index: u64)
        ensures
            final(self)@ == (Buffer {
                offset: scroll_by(old(self)@.offset, old(self)@.rows, Scroll::Up(index)),
                ..old(self)@
            }),
    {
        let at: u64 = self.state.selected();
        let to: u64 = if index >= at {
            0
        } else if at - index > self.row_size {
            self.row_size
        } else {
            at - index
        };
        self.state.select(to);
    }

    pub fn items(&self) -> (r: &Vec<String>)
        ensures
            texts(r@) == self@.items,
    {
        &self.items
    }

    /// Empties the buffer.
    pub fn clear(&mut self)
        ensures
            final(self)@ == (Buffer { items: seq![], lines: seq![], offset: 0, rows: 0 }),
    {
        *self = Text::default();
    }

    pub fn spans(&self) -> (r: &Vec<Spans>)
        ensures
            r@.len() == self@.lines.len(),
            forall|i: int| 0 <= i < r@.len() ==> (#[trigger] r@[i])@ == self@.lines[i],
    {
        &self.spans
    }

    pub fn row_size(&self) -> (r: u64)
        ensures
            r == self@.rows,
    {
        self.row_size
    }

    /// The display lines to show in a frame that holds `viewport_height`
    /// lines, as a range of positions in `spans()`: from the line that the
    /// view starts at, as many as fit and are there.
    pub fn visible_range(&self, viewport_height: u64) -> (r: (usize, usize))
        ensures
            r.0 <= r.1 <= self@.lines.len(),
            r.0 == if self@.offset <= self@.lines.len() {
                self@.offset as int
            } else {
                self@.lines.len() as int
            },
            r.1 == if self@.offset + viewport_height <= self@.lines.len() {
                self@.offset + viewport_height
            } else {
                self@.lines.len() as int
            },
    {
        let len: usize = self.spans.len();
        let at: u64 = self.state.selected();
        if at >= len as u64 {
            (len, len)
        } else {
            let start: usize = at as usize;
            let end: usize = if viewport_height >= (len - start) as u64 {
                len
            } else {
                start + viewport_height as usize
            };
            (start, end)
        }
    }

    /// Adds an item without wrapping it.
    pub fn add_item(&mut self, item: String)
        ensures
            final(self)@ == (Buffer { items: old(self)@.items.push(item@), ..old(self)@ }),
    {
        proof {
            lemma_texts_push(self.items@, item);
        }
        self.items.push(item);
    }

    /// Adds `items`, wraps them to the width inside the border and adds
    /// their display lines to those that are there; then counts the rows
    /// anew. The view stays where it is.
    pub fn append_items(&mut self, items: &Vec<String>, width: u64, height: u64)
        ensures
            final(self)@.items == old(self)@.items + texts(items@),
            final(self)@.lines == old(self)@.lines + lines_of(
                wrap_all(texts(items@), inner_width(width)),
            ),
            final(self)@.rows == row_count(final(self)@.lines.len(), height),
            final(self)@.offset == old(self)@.offset,
    {
        let ghost before = self@;
        let mut i: usize = 0;
        assert(texts(items@).take(0) =~= Seq::<Seq<char>>::empty());
        assert(self@.items + Seq::<Seq<char>>::empty() =~= self@.items);
        while i < items.len()
            invariant
                i <= items.len(),
                self@.items == before.items + texts(items@).take(i as int),
                self@.lines == before.lines,
                self@.offset == before.offset,
            decreases items.len() - i,
        {
            let item: String = items[i].clone();
            proof {
                lemma_texts_push(self.items@, item);
                assert(texts(items@).take(i + 1) =~= texts(items@).take(i as int).push(
                    items@[i as int]@,
                ));
                assert((before.items + texts(items@).take(i as int)).push(item@) =~= before.items
                    + texts(items@).take(i + 1));
            }
            self.items.push(item);
            i += 1;
        }
        assert(texts(items@).take(items@.len() as int) =~= texts(items@));
        let wrapped: Vec<String> = wrap(items, inner(width));
        let mut lines: Vec<Spans> = generate_spans(&wrapped);
        proof {
            let added = lines_of(wrap_all(texts(items@), inner_width(width)));
            assert(added.len() == lines@.len());
            assert forall|k: int| 0 <= k < lines@.len() implies (#[trigger] lines@[k])@
                == added[k] by {
                assert(texts(wrapped@)[k] == wrapped@[k]@);
            }
            assert(Seq::new((self.spans@ + lines@).len(), |i: int| (self.spans@ + lines@)[i]@)
                =~= before.lines + added);
        }
        self.spans.append(&mut lines);
        self.update_rows_size(height);
    }

    /// Wraps all items anew, to the width inside the border.
    pub fn update_spans(&mut self, width: u64)
        ensures
            final(self)@ == (Buffer {
                lines: lines_of(wrap_all(old(self)@.items, inner_width(width))),
                ..old(self)@
            }),
    {
        let wrapped: Vec<String> = wrap(&self.items, inner(width));
        let lines: Vec<Spans> = generate_spans(&wrapped);
        proof {
            let all = lines_of(wrap_all(self@.items, inner_width(width)));
            assert(all.len() == lines@.len());
            assert forall|k: int| 0 <= k < lines@.len() implies (#[trigger] lines@[k])@
                == all[k] by {
                assert(texts(wrapped@)[k] == wrapped@[k]@);
            }
            assert(Seq::new(lines@.len(), |i: int| lines@[i]@) =~= all);
        }
        self.spans = lines;
    }

    /// Counts anew how far the buffer can be scrolled in a frame of the
    /// given height.
    pub fn update_rows_size(&mut self, height: u64)
        ensures
            final(self)@ == (Buffer {
                rows: row_count(old(self)@.lines.len(), height),
                ..old(self)@
            }),
    {
        let count: u64 = self.spans.len() as u64;
        self.row_size = if height >= BORDER_WIDTH {
            let frame: u64 = height - BORDER_WIDTH;
            if frame < count {
                count - frame
            } else {
                0
            }
        } else {
            let short: u64 = BORDER_WIDTH - height;
            if count > u64::MAX - short {
                u64::MAX
            } else {
                count + short
            }
        };
    }

    /// A text buffer can take the focus.
    pub fn selectable(&self) -> (r: bool)
        ensures
            r,
    {
        true
    }

    pub fn select_next(&mut self, index: usize)
        ensures
            final(self)@ == (Buffer {
                offset: scroll_by(
                    old(self)@.offset,
                    old(self)@.rows,
                    Scroll::Down(index as u64),
                ),
                ..old(self)@
            }),
    {
        self.scroll_down(index as u64);
    }

    pub fn select_prev(&mut self, index: usize)
        ensures
            final(self)@ == (Buffer {
                offset: scroll_by(old(self)@.offset, old(self)@.rows, Scroll::Up(index as u64)),
                ..old(self)@
            }),
    {
        self.scroll_up(index as u64);
    }

    pub fn select_first(&mut self)
        ensures
            final(self)@ == (Buffer { offset: 0, ..old(self)@ }),
    {
        self.state.select(0);
    }

    pub fn select_last(&mut self)
        ensures
            final(self)@ == (Buffer { offset: old(self)@.rows, ..old(self)@ }),
    {
        self.state.select(self.row_size);
    }

    /// Replaces the items and puts the view at the top. The display lines
    /// stay as they are until they are wrapped anew.
    pub fn set_items(&mut self, items: Vec<String>)
        ensures
            final(self)@ == (Buffer { items: texts(items@), offset: 0, ..old(self)@ }),
    {
        self.state.select(0);
        self.items = items;
    }
}

/// The width inside a border.
fn inner(width: u64) -> (r: usize)
    ensures
        r == inner_width(width),
{
    if width <= BORDER_WIDTH {
        0
    } else if width - BORDER_WIDTH > usize::MAX as u64 {
        usize::MAX
    } else {
        (width - BORDER_WIDTH) as usize
    }
}

} // verus!
