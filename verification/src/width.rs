//! How many terminal rows a text takes: its lines, each wrapped at the
//! terminal's width and measured in display columns.

use crate::template::find;
use crate::template::lemma_find;
use crate::template::lemma_find_from;
use crate::text::chars_of;
use crate::text::string_of;
use vstd::prelude::*;

verus! {

/// The columns that `text` takes when displayed: wide glyphs count twice,
/// combining ones not at all, and some sequences as one glyph.
pub uninterp spec fn display_width(text: Seq<char>) -> nat;

/// `unicode_width::UnicodeWidthStr::width`: the display width of `s` in
/// columns, with ambiguous characters taken as narrow. It depends on the
/// characters of `s` alone.
#[verifier::external_body]
pub(crate) fn string_width(s: &str) -> (w: usize)
    ensures
        w == display_width(s@),
{
    unicode_width::UnicodeWidthStr::width(s)
}

/// The width taken for a sink that cannot tell its own.
pub const DEFAULT_WIDTH: u16 = 80;

/// The width to wrap at for a sink that gives `probed`.
pub open spec fn columns_of(probed: u16) -> nat {
    if probed == 0 {
        DEFAULT_WIDTH as nat
    } else {
        probed as nat
    }
}

/// The rows that one line of `width` display columns takes on a terminal of
/// `cols` columns: one for an empty line, else as many as it wraps to.
pub open spec fn line_rows(width: nat, cols: u16) -> nat {
    if width == 0 {
        1
    } else {
        ((width + columns_of(cols) - 1) / columns_of(cols) as int) as nat
    }
}

/// The rows that `text` takes on a terminal of `cols` columns: those of each
/// of its lines.
pub open spec fn text_rows(text: Seq<char>, cols: u16) -> nat
    decreases text.len(),
{
    let k = find(text, '\n', 0);
    if k >= text.len() {
        line_rows(display_width(text), cols)
    } else {
        proof {
            lemma_find_from(text, '\n', 0);
        }
        line_rows(display_width(text.subrange(0, k)), cols) + text_rows(
            text.subrange(k + 1, text.len() as int),
            cols,
        )
    }
}

/// `n` held to what a `usize` can count.
pub open spec fn held(n: nat) -> usize {
    if n > usize::MAX {
        usize::MAX
    } else {
        n as usize
    }
}

/// The width to wrap at for a sink that gives `probed`: the default when the
/// sink could not tell.
pub fn effective_width(probed: u16) -> (cols: u16)
    ensures
        cols == columns_of(probed),
        cols > 0,
{
    if probed == 0 {
        DEFAULT_WIDTH
    } else {
        probed
    }
}

/// The rows that one line of `width` display columns takes on a terminal of
/// `cols` columns.
pub fn rows_for(width: usize, cols: u16) -> (rows: usize)
    ensures
        rows == line_rows(width as nat, cols),
{
    if width == 0 {
        return 1;
    }
    let c: usize = effective_width(cols) as usize;
    let whole: usize = width / c;
    let part: usize = width % c;
    assert(width == whole * c + part) by (nonlinear_arith)
        requires
            whole == width / c,
            part == width % c,
            c > 0,
    ;
    if part != 0 {
        assert((width + c - 1) / c as int == whole + 1) by (nonlinear_arith)
            requires
                width == whole * c + part,
                0 < part < c,
        ;
        assert(whole < width) by (nonlinear_arith)
            requires
                width == whole * c + part,
                0 < part < c,
                whole >= 0,
        ;
        whole + 1
    } else {
        assert((width + c - 1) / c as int == whole) by (nonlinear_arith)
            requires
                width == whole * c,
                c > 0,
        ;
        whole
    }
}

/// The sum of `a` and `b`, held to what a `usize` can count.
pub fn add_held(a: usize, b: usize) -> (sum: usize)
    ensures
        sum == held((a + b) as nat),
{
    if b > usize::MAX - a {
        usize::MAX
    } else {
        a + b
    }
}

/// The display width of the characters of `text` from `from` up to `to`.
fn width_of(text: &Vec<char>, from: usize, to: usize) -> (w: usize)
    requires
        from <= to <= text.len(),
    ensures
        w == display_width(text@.subrange(from as int, to as int)),
{
    let line = string_of(text, from, to);
    string_width(line.as_str())
}

/// The rows that `text` takes on a terminal of `cols` columns, held to what
/// a `usize` can count.
pub fn count_rows(text: &str, cols: u16) -> (rows: usize)
    ensures
        rows == held(text_rows(text@, cols)),
{
    let chars = chars_of(text);
    let n = chars.len();
    let mut rows: usize = 0;
    let ghost mut total: nat = 0;
    let mut start: usize = 0;
    let mut i: usize = 0;
    assert(chars@.subrange(0, n as int) =~= chars@);
    while i < n
        invariant
            start <= i <= n == chars.len(),
            chars@ == text@,
            forall|j: int| start <= j < i ==> chars@[j] != '\n',
            rows == held(total),
            total + text_rows(chars@.subrange(start as int, n as int), cols) == text_rows(
                chars@,
                cols,
            ),
        decreases n - i,
    {
        if chars[i] == '\n' {
            let ghost rest = chars@.subrange(start as int, n as int);
            proof {
                lemma_find(rest, '\n', 0, i - start);
                assert(rest.subrange(0, i - start) =~= chars@.subrange(start as int, i as int));
                assert(rest.subrange(i - start + 1, rest.len() as int) =~= chars@.subrange(
                    i + 1,
                    n as int,
                ));
            }
            let line: usize = rows_for(width_of(&chars, start, i), cols);
            rows = add_held(rows, line);
            proof {
                total = total + line as nat;
            }
            start = i + 1;
        }
        i += 1;
    }
    let ghost rest = chars@.subrange(start as int, n as int);
    proof {
        lemma_find(rest, '\n', 0, n - start);
    }
    let line: usize = rows_for(width_of(&chars, start, n), cols);
    add_held(rows, line)
}

} // verus!
