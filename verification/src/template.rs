//! The display template: a string with `{name}` fields, compiled once into
//! the list of instructions that the renderer walks.

use crate::text::chars_of;
use crate::text::string_of;
use vstd::prelude::*;

verus! {

/// One render instruction, as the contracts see it.
pub enum Part {
    Newline,
    Message,
    Elapsed,
    Bytes,
    Pos,
    TotalBytes,
    Total,
    BytesPerSecond,
    Eta,
    Bar(u64),
    StateEmoji,
    Text(Seq<char>),
}

/// One render instruction.
#[derive(Debug)]
pub enum TemplatePart {
    /// A line break.
    Newline,
    /// The bar's message.
    Message,
    /// Time since the bar was created, `H:MM:SS`.
    Elapsed,
    /// The position as a byte count.
    Bytes,
    /// The position.
    Pos,
    /// The length as a byte count.
    TotalBytes,
    /// The length.
    Total,
    /// The position per second of elapsed time, as a byte count.
    BytesPerSecond,
    /// The time the rest will take at the speed so far, `H:MM:SS`.
    Eta,
    /// The bar glyph, this many columns between its brackets.
    Bar(u64),
    /// The glyph for new, in progress, done or overflowed.
    StateEmoji,
    /// Literal text without a line break.
    Text(String),
}

impl View for TemplatePart {
    type V = Part;

    open spec fn view(&self) -> Part {
        match self {
            TemplatePart::Newline => Part::Newline,
            TemplatePart::Message => Part::Message,
            TemplatePart::Elapsed => Part::Elapsed,
            TemplatePart::Bytes => Part::Bytes,
            TemplatePart::Pos => Part::Pos,
            TemplatePart::TotalBytes => Part::TotalBytes,
            TemplatePart::Total => Part::Total,
            TemplatePart::BytesPerSecond => Part::BytesPerSecond,
            TemplatePart::Eta => Part::Eta,
            TemplatePart::Bar(w) => Part::Bar(*w),
            TemplatePart::StateEmoji => Part::StateEmoji,
            TemplatePart::Text(t) => Part::Text(t@),
        }
    }
}

/// A compiled template.
#[derive(Debug)]
pub struct Template {
    pub parts: Vec<TemplatePart>,
}

/// The instructions that `parts` stand for.
pub open spec fn views(parts: Seq<TemplatePart>) -> Seq<Part> {
    Seq::new(parts.len(), |i: int| parts[i]@)
}

impl View for Template {
    type V = Seq<Part>;

    open spec fn view(&self) -> Seq<Part> {
        views(self.parts@)
    }
}

/// The width of a bar glyph whose tag gives none.
pub const DEFAULT_BAR_WIDTH: u64 = 20;

/// The first index at or after `from` where `s` holds `c`; the length of `s`
/// when there is none.
pub open spec fn find(s: Seq<char>, c: char, from: int) -> int
    decreases s.len() - from,
{
    if from < 0 || from >= s.len() {
        s.len() as int
    } else if s[from] == c {
        from
    } else {
        find(s, c, from + 1)
    }
}

/// Literal text as instructions: its lines, with a line break between each
/// two. An empty line is an empty text.
pub open spec fn lines(t: Seq<char>) -> Seq<Part>
    decreases t.len(),
{
    let k = find(t, '\n', 0);
    if k >= t.len() {
        seq![Part::Text(t)]
    } else {
        proof {
            lemma_find_from(t, '\n', 0);
        }
        seq![Part::Text(t.subrange(0, k)), Part::Newline] + lines(
            t.subrange(k + 1, t.len() as int),
        )
    }
}

/// Pending literal text as instructions: none when there is no text.
pub open spec fn literal(t: Seq<char>) -> Seq<Part> {
    if t.len() == 0 {
        Seq::empty()
    } else {
        lines(t)
    }
}

/// Whether `c` is one of `0` to `9`.
pub open spec fn is_digit(c: char) -> bool {
    '0' <= c <= '9'
}

/// Whether `d` is made of decimal digits only.
pub open spec fn all_digits(d: Seq<char>) -> bool {
    forall|i: int| 0 <= i < d.len() ==> is_digit(#[trigger] d[i])
}

/// The number that the decimal digits `d` write.
pub open spec fn number(d: Seq<char>) -> nat
    decreases d.len(),
{
    if d.len() == 0 {
        0
    } else {
        (number(d.drop_last()) * 10 + (d.last() as nat - 0x30)) as nat
    }
}

/// The width that the tag `name` gives a bar glyph: the default for `bar`,
/// the number for `bar` followed by decimal digits whose number fits in 64
/// bits. No other tag names a bar glyph.
pub open spec fn bar_width(name: Seq<char>) -> Option<u64> {
    if name == "bar"@ {
        Some(DEFAULT_BAR_WIDTH)
    } else if name.len() > 3 && name.subrange(0, 3) == "bar"@ && all_digits(
        name.subrange(3, name.len() as int),
    ) && number(name.subrange(3, name.len() as int)) <= u64::MAX {
        Some(number(name.subrange(3, name.len() as int)) as u64)
    } else {
        None
    }
}

/// Whether `name` names a field.
pub open spec fn names_field(name: Seq<char>) -> bool {
    ||| name == "msg"@
    ||| name == "message"@
    ||| name == "elapsed"@
    ||| name == "elapsed_precise"@
    ||| name == "bytes"@
    ||| name == "pos"@
    ||| name == "total_bytes"@
    ||| name == "total"@
    ||| name == "len"@
    ||| name == "bytes_per_sec"@
    ||| name == "bytes_per_second"@
    ||| name == "eta"@
    ||| name == "state_emoji"@
    ||| bar_width(name) is Some
}

/// What stands between `{` and `}` as instructions: the field that `name`
/// names, or, for a name that names none, the tag itself as literal text,
/// braces included.
pub open spec fn field(name: Seq<char>) -> Seq<Part> {
    if name == "msg"@ || name == "message"@ {
        seq![Part::Message]
    } else if name == "elapsed"@ || name == "elapsed_precise"@ {
        seq![Part::Elapsed]
    } else if name == "bytes"@ {
        seq![Part::Bytes]
    } else if name == "pos"@ {
        seq![Part::Pos]
    } else if name == "total_bytes"@ {
        seq![Part::TotalBytes]
    } else if name == "total"@ || name == "len"@ {
        seq![Part::Total]
    } else if name == "bytes_per_sec"@ || name == "bytes_per_second"@ {
        seq![Part::BytesPerSecond]
    } else if name == "eta"@ {
        seq![Part::Eta]
    } else if name == "state_emoji"@ {
        seq![Part::StateEmoji]
    } else if bar_width(name) is Some {
        seq![Part::Bar(bar_width(name)->0)]
    } else {
        lines(seq!['{'] + name + seq!['}'])
    }
}

/// The instructions for `s` from index `i` on, with `pending` the literal
/// text read so far and not yet emitted.
///
/// `{{` and `}}` add one brace to the pending text. Any other `{` ends the
/// pending text and opens a tag that runs to the next `}`; without one, the
/// rest of the input from that `{` on is literal text. Every other character
/// joins the pending text.
pub open spec fn compile_from(s: Seq<char>, i: int, pending: Seq<char>) -> Seq<Part>
    decreases s.len() - i,
{
    if i < 0 || i >= s.len() {
        literal(pending)
    } else if s[i] == '{' {
        if i + 1 < s.len() && s[i + 1] == '{' {
            compile_from(s, i + 2, pending.push('{'))
        } else {
            let j = find(s, '}', i + 1);
            if j < s.len() {
                proof {
                    lemma_find_from(s, '}', i + 1);
                }
                literal(pending) + field(s.subrange(i + 1, j)) + compile_from(
                    s,
                    j + 1,
                    Seq::empty(),
                )
            } else {
                literal(pending) + lines(s.subrange(i, s.len() as int))
            }
        }
    } else if s[i] == '}' && i + 1 < s.len() && s[i + 1] == '}' {
        compile_from(s, i + 2, pending.push('}'))
    } else {
        compile_from(s, i + 1, pending.push(s[i]))
    }
}

/// The instructions that the template `s` compiles to.
pub open spec fn compile(s: Seq<char>) -> Seq<Part> {
    compile_from(s, 0, Seq::empty())
}

/// `find` looks at or after `from` only, and stops at the first `c`.
pub proof fn lemma_find_from(s: Seq<char>, c: char, from: int)
    requires
        0 <= from <= s.len(),
    ensures
        from <= find(s, c, from) <= s.len(),
        find(s, c, from) < s.len() ==> s[find(s, c, from)] == c,
        forall|j: int| from <= j < find(s, c, from) ==> s[j] != c,
    decreases s.len() - from,
{
    if from < s.len() && s[from] != c {
        lemma_find_from(s, c, from + 1);
    }
}

/// `find` gives `k` when `c` stands at `k` and nowhere between `from` and `k`.
pub proof fn lemma_find(s: Seq<char>, c: char, from: int, k: int)
    requires
        0 <= from <= k <= s.len(),
        forall|j: int| from <= j < k ==> s[j] != c,
        k < s.len() ==> s[k] == c,
    ensures
        find(s, c, from) == k,
    decreases k - from,
{
    if from < k {
        lemma_find(s, c, from + 1, k);
    }
}

/// The number that digits write does not shrink when digits follow.
proof fn lemma_number_grows(d: Seq<char>, k: int)
    requires
        all_digits(d),
        0 <= k <= d.len(),
    ensures
        number(d.subrange(0, k)) <= number(d),
    decreases d.len() - k,
{
    if k < d.len() {
        let e = d.drop_last();
        assert(e.subrange(0, k) =~= d.subrange(0, k));
        assert(is_digit(d[d.len() - 1]));
        lemma_number_grows(e, k);
    } else {
        assert(d.subrange(0, k) =~= d);
    }
}

fn push_part(parts: &mut Vec<TemplatePart>, part: TemplatePart)
    ensures
        views(final(parts)@) == views(old(parts)@).push(part@),
{
    parts.push(part);
    assert(views(parts@) =~= views(old(parts)@).push(part@));
}

/// Appends the lines of `text`, a line break between each two.
fn push_lines(parts: &mut Vec<TemplatePart>, text: &Vec<char>)
    ensures
        views(final(parts)@) == views(old(parts)@) + lines(text@),
{
    let n = text.len();
    let mut start: usize = 0;
    let mut i: usize = 0;
    assert(text@.subrange(0, n as int) =~= text@);
    while i < n
        invariant
            start <= i <= n == text.len(),
            forall|j: int| start <= j < i ==> text@[j] != '\n',
            views(parts@) + lines(text@.subrange(start as int, n as int)) == views(old(parts)@)
                + lines(text@),
        decreases n - i,
    {
        if text[i] == '\n' {
            let ghost rest = text@.subrange(start as int, n as int);
            let ghost before = views(parts@);
            proof {
                lemma_find(rest, '\n', 0, i - start);
                assert(rest.subrange(0, i - start) =~= text@.subrange(start as int, i as int));
                assert(rest.subrange(i - start + 1, rest.len() as int) =~= text@.subrange(
                    i + 1,
                    n as int,
                ));
            }
            push_part(parts, TemplatePart::Text(string_of(text, start, i)));
            push_part(parts, TemplatePart::Newline);
            start = i + 1;
            assert(views(parts@) + lines(text@.subrange(start as int, n as int)) =~= before
                + lines(rest));
        }
        i += 1;
    }
    let ghost rest = text@.subrange(start as int, n as int);
    let ghost before = views(parts@);
    proof {
        lemma_find(rest, '\n', 0, n - start);
    }
    push_part(parts, TemplatePart::Text(string_of(text, start, n)));
    assert(views(parts@) =~= before + lines(rest));
}

/// Whether the characters of `text` from `from` up to `to` spell `name`.
fn spells(text: &Vec<char>, from: usize, to: usize, name: &str) -> (r: bool)
    requires
        from <= to <= text.len(),
    ensures
        r == (text@.subrange(from as int, to as int) == name@),
{
    let want = chars_of(name);
    let ghost got = text@.subrange(from as int, to as int);
    if want.len() != to - from {
        assert(got.len() != name@.len());
        return false;
    }
    let mut i: usize = 0;
    while i < want.len()
        invariant
            from <= to <= text.len(),
            want.len() == to - from,
            want@ == name@,
            i <= want.len(),
            got == text@.subrange(from as int, to as int),
            forall|j: int| 0 <= j < i ==> got[j] == want@[j],
        decreases want.len() - i,
    {
        if text[from + i] != want[i] {
            assert(got[i as int] == text@[from + i]);
            assert(got[i as int] != name@[i as int]);
            return false;
        }
        i += 1;
    }
    assert(got =~= want@);
    true
}

/// The width that the tag from `from` up to `to` gives a bar glyph, if it
/// names one.
fn parse_bar(text: &Vec<char>, from: usize, to: usize) -> (r: Option<u64>)
    requires
        from <= to <= text.len(),
    ensures
        r == bar_width(text@.subrange(from as int, to as int)),
{
    let ghost name = text@.subrange(from as int, to as int);
    if spells(text, from, to, "bar") {
        return Some(DEFAULT_BAR_WIDTH);
    }
    if to - from <= 3 {
        return None;
    }
    assert(name.subrange(0, 3) =~= text@.subrange(from as int, from + 3));
    if !spells(text, from, from + 3, "bar") {
        return None;
    }
    let ghost digits = name.subrange(3, name.len() as int);
    let mut value: u64 = 0;
    let mut i: usize = from + 3;
    let ghost wanted = if all_digits(digits) && number(digits) <= u64::MAX {
        Some(number(digits) as u64)
    } else {
        None
    };
    assert(digits.subrange(0, 0) =~= Seq::<char>::empty());
    while i < to
        invariant
            from + 3 <= i <= to <= text.len(),
            name == text@.subrange(from as int, to as int),
            digits == name.subrange(3, name.len() as int),
            bar_width(name) == wanted,
            wanted == if all_digits(digits) && number(digits) <= u64::MAX {
                Some(number(digits) as u64)
            } else {
                None
            },
            all_digits(digits.subrange(0, i - from - 3)),
            value == number(digits.subrange(0, i - from - 3)),
        decreases to - i,
    {
        let c = text[i];
        let ghost k = i - from - 3;
        assert(digits[k] == c);
        if c < '0' || c > '9' {
            assert(!is_digit(digits[k]));
            return None;
        }
        let d: u64 = (c as u32 - '0' as u32) as u64;
        proof {
            let next = digits.subrange(0, k + 1);
            assert(next.drop_last() =~= digits.subrange(0, k));
            assert(next.last() == c);
            assert(all_digits(next));
            assert(number(next) == value * 10 + d);
            if all_digits(digits) {
                lemma_number_grows(digits, k + 1);
            }
        }
        let step = match value.checked_mul(10) {
            Some(tens) => tens.checked_add(d),
            None => None,
        };
        match step {
            Some(v) => {
                value = v;
            },
            None => {
                return None;
            },
        }
        i += 1;
    }
    assert(digits.subrange(0, to - from - 3) =~= digits);
    Some(value)
}

/// Appends what the tag from `from` up to `to` stands for.
fn push_field(parts: &mut Vec<TemplatePart>, text: &Vec<char>, from: usize, to: usize)
    requires
        from <= to <= text.len(),
    ensures
        views(final(parts)@) == views(old(parts)@) + field(
            text@.subrange(from as int, to as int),
        ),
{
    let ghost before = views(parts@);
    let ghost name = text@.subrange(from as int, to as int);
    if spells(text, from, to, "msg") || spells(text, from, to, "message") {
        push_part(parts, TemplatePart::Message);
    } else if spells(text, from, to, "elapsed") || spells(text, from, to, "elapsed_precise") {
        push_part(parts, TemplatePart::Elapsed);
    } else if spells(text, from, to, "bytes") {
        push_part(parts, TemplatePart::Bytes);
    } else if spells(text, from, to, "pos") {
        push_part(parts, TemplatePart::Pos);
    } else if spells(text, from, to, "total_bytes") {
        push_part(parts, TemplatePart::TotalBytes);
    } else if spells(text, from, to, "total") || spells(text, from, to, "len") {
        push_part(parts, TemplatePart::Total);
    } else if spells(text, from, to, "bytes_per_sec") || spells(
        text,
        from,
        to,
        "bytes_per_second",
    ) {
        push_part(parts, TemplatePart::BytesPerSecond);
    } else if spells(text, from, to, "eta") {
        push_part(parts, TemplatePart::Eta);
    } else if spells(text, from, to, "state_emoji") {
        push_part(parts, TemplatePart::StateEmoji);
    } else {
        match parse_bar(text, from, to) {
            Some(width) => {
                push_part(parts, TemplatePart::Bar(width));
            },
            None => {
                let mut tag: Vec<char> = Vec::new();
                tag.push('{');
                let mut i: usize = from;
                while i < to
                    invariant
                        from <= i <= to <= text.len(),
                        tag@ == seq!['{'] + text@.subrange(from as int, i as int),
                    decreases to - i,
                {
                    tag.push(text[i]);
                    i += 1;
                    assert(tag@ =~= seq!['{'] + text@.subrange(from as int, i as int));
                }
                tag.push('}');
                assert(tag@ =~= seq!['{'] + name + seq!['}']);
                push_lines(parts, &tag);
                return ;
            },
        }
    }
    assert(views(parts@) =~= before + field(name));
}

impl Template {
    /// Compiles `template`. Nothing is refused: what is no field is literal
    /// text.
    pub fn new(template: &str) -> (t: Template)
        ensures
            t@ == compile(template@),
    {
        let text = chars_of(template);
        let n = text.len();
        let mut parts: Vec<TemplatePart> = Vec::new();
        let mut pending: Vec<char> = Vec::new();
        let mut i: usize = 0;
        assert(views(parts@) =~= Seq::<Part>::empty());
        while i < n
            invariant
                i <= n == text.len(),
                text@ == template@,
                views(parts@) + compile_from(text@, i as int, pending@) == compile(text@),
            decreases n - i,
        {
            let c = text[i];
            if c == '{' {
                if i + 1 < n && text[i + 1] == '{' {
                    pending.push('{');
                    i += 2;
                } else {
                    let mut j: usize = i + 1;
                    while j < n && text[j] != '}'
                        invariant
                            i < j <= n == text.len(),
                            forall|k: int| i < k < j ==> text@[k] != '}',
                        decreases n - j,
                    {
                        j += 1;
                    }
                    proof {
                        lemma_find(text@, '}', i + 1, j as int);
                    }
                    let ghost before = views(parts@);
                    if pending.len() > 0 {
                        push_lines(&mut parts, &pending);
                    }
                    assert(views(parts@) =~= before + literal(pending@));
                    if j < n {
                        push_field(&mut parts, &text, i + 1, j);
                        pending = Vec::new();
                        i = j + 1;
                        assert(views(parts@) + compile_from(text@, i as int, pending@) =~= compile(
                            text@,
                        ));
                    } else {
                        let mut tail: Vec<char> = Vec::new();
                        let mut k: usize = i;
                        while k < n
                            invariant
                                i <= k <= n == text.len(),
                                tail@ == text@.subrange(i as int, k as int),
                            decreases n - k,
                        {
                            tail.push(text[k]);
                            k += 1;
                            assert(tail@ =~= text@.subrange(i as int, k as int));
                        }
                        push_lines(&mut parts, &tail);
                        pending = Vec::new();
                        i = n;
                        assert(views(parts@) + compile_from(text@, i as int, pending@) =~= compile(
                            text@,
                        ));
                    }
                }
            } else if c == '}' && i + 1 < n && text[i + 1] == '}' {
                pending.push('}');
                i += 2;
            } else {
                pending.push(c);
                i += 1;
            }
        }
        let ghost before = views(parts@);
        if pending.len() > 0 {
            push_lines(&mut parts, &pending);
        }
        assert(views(parts@) =~= before + literal(pending@));
        Template { parts }
    }
}

} // verus!
