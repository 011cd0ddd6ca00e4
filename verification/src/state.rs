//! What one bar holds, and the pure function from that and the current time
//! to the text it displays.
//!
//! Times are readings of one monotonic clock, in nanoseconds.

use crate::template::compile;
use crate::template::views;
use crate::template::Part;
use crate::template::Template;
use crate::template::TemplatePart;
use crate::text::clock;
use crate::text::decimal;
use crate::text::duration_to_human;
use crate::text::push_bytes;
use crate::text::push_char;
use crate::text::push_decimal;
use crate::text::scaled;
use vstd::prelude::*;
use vstd::string::StringExecFns;

verus! {

/// Nanoseconds in one second.
pub const NANOS_PER_SEC: u64 = 1000000000;

/// Where a bar stands between nothing done and its length.
#[derive(Clone, Copy, Debug, PartialEq, Eq, Structural)]
pub enum Status {
    /// Nothing done yet. A bar at position zero is new whatever its length,
    /// a length of zero included.
    New,
    /// Under way.
    InProgress,
    /// The position has reached the length.
    Done,
    /// The position is past the length.
    Overflow,
}

/// One bar's record.
#[derive(Debug)]
pub struct BarState {
    /// The declared length.
    pub len: u64,
    /// The position. It may exceed the length.
    pub pos: u64,
    /// The message that the template's message field shows.
    pub message: String,
    /// The compiled template.
    pub template: Template,
    /// The clock reading at which the bar was created.
    pub created_at: u64,
    /// Whether the bar is drawn at all.
    pub visible: bool,
    /// Whether the bar changed since it was last drawn. Only sinks that are
    /// no terminal go by it.
    pub need_redraw: bool,
}

/// One bar's record, as the contracts see it.
pub struct BarView {
    pub len: u64,
    pub pos: u64,
    pub message: Seq<char>,
    pub template: Seq<Part>,
    pub created_at: u64,
    pub visible: bool,
    pub need_redraw: bool,
}

impl View for BarState {
    type V = BarView;

    open spec fn view(&self) -> BarView {
        BarView {
            len: self.len,
            pos: self.pos,
            message: self.message@,
            template: self.template@,
            created_at: self.created_at,
            visible: self.visible,
            need_redraw: self.need_redraw,
        }
    }
}

/// The status of a bar of length `len` at position `pos`.
pub open spec fn status_of(len: nat, pos: nat) -> Status {
    if pos == 0 {
        Status::New
    } else if pos == len {
        Status::Done
    } else if pos > len {
        Status::Overflow
    } else {
        Status::InProgress
    }
}

/// The glyph that shows a status.
pub open spec fn glyph(status: Status) -> char {
    match status {
        Status::New => '\u{1F195}',
        Status::InProgress => '\u{23F3}',
        Status::Done => '\u{2705}',
        Status::Overflow => '\u{1F4A5}',
    }
}

/// `pos` per second over `nanos` nanoseconds, rounded down and held to 64
/// bits. With no time elapsed it is zero for a position of zero, and the
/// largest 64-bit number otherwise.
pub open spec fn throughput(pos: nat, nanos: nat) -> nat {
    if nanos == 0 {
        if pos == 0 {
            0
        } else {
            u64::MAX as nat
        }
    } else {
        let q = pos * NANOS_PER_SEC as nat / nanos;
        if q > u64::MAX {
            u64::MAX as nat
        } else {
            q
        }
    }
}

/// The seconds that the rest of `len` takes at the speed at which `pos` was
/// reached in `nanos` nanoseconds, rounded down and held to 64 bits. A bar at
/// or past its length has nothing left to wait for.
pub open spec fn eta_secs(len: nat, pos: nat, nanos: nat) -> nat
    recommends
        pos > 0,
{
    if pos >= len {
        0
    } else {
        let q = ((len - pos) * nanos) as nat / (pos * NANOS_PER_SEC as nat);
        if q > u64::MAX {
            u64::MAX as nat
        } else {
            q
        }
    }
}

/// How many columns of a bar glyph of `width` columns are filled:
/// `pos / len * width`, rounded down. A length of zero fills nothing at
/// position zero and one column more than the width at any other.
pub open spec fn filled(len: nat, pos: nat, width: nat) -> nat {
    if len == 0 {
        if pos == 0 {
            0
        } else {
            width + 1
        }
    } else {
        pos * width / len
    }
}

/// `n` times the character `c`.
pub open spec fn repeat(c: char, n: nat) -> Seq<char> {
    Seq::new(n, |i: int| c)
}

/// The bar glyph. Up to the width it is the filled columns as `=` and the
/// rest as blanks, between brackets. Past the width it is the full width as
/// `=`, then one `!` for each column past it, and no closing bracket.
pub open spec fn bar_glyph(len: nat, pos: nat, width: nat) -> Seq<char> {
    let f = filled(len, pos, width);
    if f <= width {
        seq!['['] + repeat('=', f) + repeat(' ', (width - f) as nat) + seq![']']
    } else {
        seq!['['] + repeat('=', width) + repeat('!', (f - width) as nat)
    }
}

/// What the estimate shows while the position is zero.
pub open spec fn unknown() -> Seq<char> {
    seq!['U', 'n', 'k', 'n', 'o', 'w', 'n']
}

impl BarView {
    /// The nanoseconds from the bar's creation to `now`; none when the clock
    /// reads earlier than at creation.
    pub open spec fn elapsed(&self, now: u64) -> nat {
        if now >= self.created_at {
            (now - self.created_at) as nat
        } else {
            0
        }
    }

    /// The bar's status.
    pub open spec fn status(&self) -> Status {
        status_of(self.len as nat, self.pos as nat)
    }

    /// What one instruction displays at `now`.
    pub open spec fn part_text(&self, part: Part, now: u64) -> Seq<char> {
        match part {
            Part::Text(t) => t,
            Part::Newline => seq!['\n'],
            Part::Message => self.message,
            Part::Elapsed => clock(self.elapsed(now) / NANOS_PER_SEC as nat),
            Part::Bytes => scaled(self.pos as nat),
            Part::Pos => decimal(self.pos as nat),
            Part::TotalBytes => scaled(self.len as nat),
            Part::Total => decimal(self.len as nat),
            Part::BytesPerSecond => scaled(throughput(self.pos as nat, self.elapsed(now))) + seq![
                '/',
                's',
            ],
            Part::Eta => if self.pos == 0 {
                unknown()
            } else {
                clock(eta_secs(self.len as nat, self.pos as nat, self.elapsed(now)))
            },
            Part::Bar(width) => bar_glyph(self.len as nat, self.pos as nat, width as nat),
            Part::StateEmoji => seq![glyph(self.status())],
        }
    }

    /// What the instructions `parts` display at `now`, one after the other.
    pub open spec fn parts_text(&self, parts: Seq<Part>, now: u64) -> Seq<char>
        decreases parts.len(),
    {
        if parts.len() == 0 {
            Seq::empty()
        } else {
            self.parts_text(parts.drop_last(), now) + self.part_text(parts.last(), now)
        }
    }

    /// What the bar displays at `now`.
    pub open spec fn rendered(&self, now: u64) -> Seq<char> {
        self.parts_text(self.template, now)
    }
}

impl BarState {
    /// A bar at position zero that is due to be drawn.
    pub fn new(len: u64, message: &str, template: &str, visible: bool, now: u64) -> (s: BarState)
        ensures
            s@ == (BarView {
                len,
                pos: 0,
                message: message@,
                template: compile(template@),
                created_at: now,
                visible,
                need_redraw: true,
            }),
    {
        BarState {
            len,
            pos: 0,
            message: String::from_str(message),
            template: Template::new(template),
            created_at: now,
            visible,
            need_redraw: true,
        }
    }

    /// The bar's status.
    pub fn status(&self) -> (s: Status)
        ensures
            s == self@.status(),
    {
        if self.pos == 0 {
            Status::New
        } else if self.pos == self.len {
            Status::Done
        } else if self.pos > self.len {
            Status::Overflow
        } else {
            Status::InProgress
        }
    }

    /// The nanoseconds from the bar's creation to `now`.
    pub fn elapsed_nanos(&self, now: u64) -> (n: u64)
        ensures
            n == self@.elapsed(now),
    {
        if now >= self.created_at {
            now - self.created_at
        } else {
            0
        }
    }

    /// The position per second of elapsed time at `now`.
    pub fn bytes_per_second(&self, now: u64) -> (b: u64)
        ensures
            b == throughput(self.pos as nat, self@.elapsed(now)),
    {
        let nanos = self.elapsed_nanos(now);
        if nanos == 0 {
            if self.pos == 0 {
                0
            } else {
                u64::MAX
            }
        } else {
            let scaled: u128 = self.pos as u128 * 1000000000;
            assert(scaled == self.pos * NANOS_PER_SEC);
            let q: u128 = scaled / nanos as u128;
            if q > u64::MAX as u128 {
                u64::MAX
            } else {
                q as u64
            }
        }
    }

    /// The seconds that the rest takes at the speed so far; nothing while
    /// the position is zero, where there is no speed to go by.
    pub fn eta_seconds(&self, now: u64) -> (eta: Option<u64>)
        ensures
            match eta {
                Some(secs) => self.pos > 0 && secs == eta_secs(
                    self.len as nat,
                    self.pos as nat,
                    self@.elapsed(now),
                ),
                None => self.pos == 0,
            },
    {
        if self.pos == 0 {
            None
        } else if self.pos >= self.len {
            Some(0)
        } else {
            let nanos = self.elapsed_nanos(now);
            let rest: u128 = (self.len - self.pos) as u128;
            assert(rest * nanos <= 0xffff_ffff_ffff_ffff * 0xffff_ffff_ffff_ffff)
                by (nonlinear_arith)
                requires
                    0 <= rest <= 0xffff_ffff_ffff_ffff,
                    0 <= nanos <= 0xffff_ffff_ffff_ffff,
            ;
            let per: u128 = self.pos as u128 * 1000000000;
            assert(per == self.pos * NANOS_PER_SEC);
            let q: u128 = rest * nanos as u128 / per;
            if q > u64::MAX as u128 {
                Some(u64::MAX)
            } else {
                Some(q as u64)
            }
        }
    }

    /// Appends the bar glyph of `width` columns to `out`.
    fn push_bar(&self, out: &mut String, width: u64)
        ensures
            final(out)@ == old(out)@ + bar_glyph(self.len as nat, self.pos as nat, width as nat),
    {
        assert(self.pos * width <= 0xffff_ffff_ffff_ffff * 0xffff_ffff_ffff_ffff)
            by (nonlinear_arith)
            requires
                0 <= self.pos <= 0xffff_ffff_ffff_ffff,
                0 <= width <= 0xffff_ffff_ffff_ffff,
        ;
        let f: u128 = if self.len == 0 {
            if self.pos == 0 {
                0
            } else {
                width as u128 + 1
            }
        } else {
            self.pos as u128 * width as u128 / self.len as u128
        };
        assert(f == filled(self.len as nat, self.pos as nat, width as nat));
        push_char(out, '[');
        if f <= width as u128 {
            push_repeat(out, '=', f);
            push_repeat(out, ' ', width as u128 - f);
            push_char(out, ']');
        } else {
            push_repeat(out, '=', width as u128);
            push_repeat(out, '!', f - width as u128);
        }
        assert(out@ =~= old(out)@ + bar_glyph(self.len as nat, self.pos as nat, width as nat));
    }

    /// Appends what one instruction displays at `now` to `out`.
    fn push_part(&self, out: &mut String, part: &TemplatePart, now: u64)
        ensures
            final(out)@ == old(out)@ + self@.part_text(part@, now),
    {
        match part {
            TemplatePart::Text(t) => {
                out.append(t.as_str());
            },
            TemplatePart::Newline => {
                push_char(out, '\n');
            },
            TemplatePart::Message => {
                out.append(self.message.as_str());
            },
            TemplatePart::Elapsed => {
                let secs: u64 = self.elapsed_nanos(now) / NANOS_PER_SEC;
                let text = duration_to_human(secs);
                out.append(text.as_str());
            },
            TemplatePart::Bytes => {
                push_bytes(out, self.pos);
            },
            TemplatePart::Pos => {
                push_decimal(out, self.pos);
            },
            TemplatePart::TotalBytes => {
                push_bytes(out, self.len);
            },
            TemplatePart::Total => {
                push_decimal(out, self.len);
            },
            TemplatePart::BytesPerSecond => {
                push_bytes(out, self.bytes_per_second(now));
                push_char(out, '/');
                push_char(out, 's');
            },
            TemplatePart::Eta => {
                match self.eta_seconds(now) {
                    Some(secs) => {
                        let text = duration_to_human(secs);
                        out.append(text.as_str());
                    },
                    None => {
                        proof {
                            reveal_strlit("Unknown");
                        }
                        out.append("Unknown");
                        assert("Unknown"@ =~= unknown());
                    },
                }
            },
            TemplatePart::Bar(width) => {
                self.push_bar(out, *width);
            },
            TemplatePart::StateEmoji => {
                let c = match self.status() {
                    Status::New => '\u{1F195}',
                    Status::InProgress => '\u{23F3}',
                    Status::Done => '\u{2705}',
                    Status::Overflow => '\u{1F4A5}',
                };
                push_char(out, c);
            },
        }
        assert(out@ =~= old(out)@ + self@.part_text(part@, now));
    }

    /// The text that the bar displays at `now`: what each instruction of its
    /// template displays, one after the other.
    pub fn render(&self, now: u64) -> (out: String)
        ensures
            out@ == self@.rendered(now),
    {
        let mut out = String::new();
        let n = self.template.parts.len();
        let mut i: usize = 0;
        assert(views(self.template.parts@).subrange(0, 0) =~= Seq::<Part>::empty());
        while i < n
            invariant
                i <= n == self.template.parts.len(),
                out@ == self@.parts_text(views(self.template.parts@).subrange(0, i as int), now),
            decreases n - i,
        {
            let ghost all = views(self.template.parts@);
            self.push_part(&mut out, &self.template.parts[i], now);
            proof {
                let next = all.subrange(0, i + 1);
                assert(next.drop_last() =~= all.subrange(0, i as int));
                assert(next.last() == self.template.parts@[i as int]@);
            }
            i += 1;
        }
        assert(views(self.template.parts@).subrange(0, n as int) =~= self.template@);
        out
    }
}

/// Appends `n` times the character `c` to `out`.
fn push_repeat(out: &mut String, c: char, n: u128)
    ensures
        final(out)@ == old(out)@ + repeat(c, n as nat),
{
    let mut i: u128 = 0;
    assert(out@ =~= old(out)@ + repeat(c, 0));
    while i < n
        invariant
            i <= n,
            out@ == old(out)@ + repeat(c, i as nat),
        decreases n - i,
    {
        push_char(out, c);
        i += 1;
        assert(out@ =~= old(out)@ + repeat(c, i as nat));
    }
}

} // verus!
