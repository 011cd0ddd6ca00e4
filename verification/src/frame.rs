//! One frame: the text that a draw hands to the sink, what it costs in
//! terminal rows, and what it leaves of the bars' own dirty flags.

use crate::state::BarState;
use crate::state::BarView;
use crate::text::push_char;
use crate::width::add_held;
use crate::width::count_rows;
use crate::width::held;
use crate::width::text_rows;
use vstd::prelude::*;
use vstd::string::StringExecFns;

verus! {

/// How a frame is drawn.
#[derive(Clone, Copy, Debug, PartialEq, Eq, Structural)]
pub enum Mode {
    /// The sink is no terminal: a frame only adds the bars that changed.
    Append,
    /// The sink is a terminal of this many columns: a frame erases the one
    /// before it and shows every visible bar.
    Terminal(u16),
}

impl Mode {
    /// Whether the mode is what `ansi` forces, where it forces one.
    pub open spec fn honors(self, ansi: Option<bool>) -> bool {
        ansi matches Some(forced) ==> forced == (self is Terminal)
    }
}

/// The bars that `states` stand for.
pub open spec fn bar_views(states: Seq<BarState>) -> Seq<BarView> {
    Seq::new(states.len(), |i: int| states[i]@)
}

/// Whether a frame in `mode` shows `bar`: a visible bar on a terminal, a
/// visible bar that changed elsewhere.
pub open spec fn shown(bar: BarView, mode: Mode) -> bool {
    bar.visible && (mode is Terminal || bar.need_redraw)
}

/// What a frame holds of one bar it shows: its text and a line break.
pub open spec fn block(bar: BarView, now: u64) -> Seq<char> {
    bar.rendered(now).push('\n')
}

/// What a frame holds of `bars`: the blocks of those it shows, in order.
pub open spec fn body(bars: Seq<BarView>, now: u64, mode: Mode) -> Seq<char>
    decreases bars.len(),
{
    if bars.len() == 0 {
        Seq::empty()
    } else {
        body(bars.drop_last(), now, mode) + if shown(bars.last(), mode) {
            block(bars.last(), now)
        } else {
            Seq::empty()
        }
    }
}

/// The rows that the visible ones of `bars` take on a terminal of `cols`
/// columns.
pub open spec fn body_rows(bars: Seq<BarView>, now: u64, cols: u16) -> nat
    decreases bars.len(),
{
    if bars.len() == 0 {
        0
    } else {
        body_rows(bars.drop_last(), now, cols) + if bars.last().visible {
            text_rows(bars.last().rendered(now), cols)
        } else {
            0
        }
    }
}

/// What erases one row: the cursor to the start of the row above, then that
/// row cleared.
pub open spec fn erase_row() -> Seq<char> {
    seq!['\x1b', '[', 'F', '\r', '\x1b', '[', 'K']
}

/// What erases the `n` rows above the cursor.
pub open spec fn erase(n: nat) -> Seq<char>
    decreases n,
{
    if n == 0 {
        Seq::empty()
    } else {
        erase((n - 1) as nat) + erase_row()
    }
}

/// The bars after a frame in `mode`: those it showed are no longer due.
pub open spec fn settled(bars: Seq<BarView>, mode: Mode) -> Seq<BarView> {
    Seq::new(
        bars.len(),
        |i: int|
            if shown(bars[i], mode) {
                BarView { need_redraw: false, ..bars[i] }
            } else {
                bars[i]
            },
    )
}

/// The frame for `bars` when the frame before it took `last_lines` rows. On
/// a terminal with at least one bar it starts by erasing those rows.
pub open spec fn frame_of(bars: Seq<BarView>, last_lines: usize, now: u64, mode: Mode) -> Seq<
    char,
> {
    if mode is Terminal && bars.len() > 0 {
        erase(last_lines as nat) + body(bars, now, mode)
    } else {
        body(bars, now, mode)
    }
}

/// The rows to erase before the next frame: on a terminal those that this
/// frame takes, elsewhere what they were.
pub open spec fn lines_after(bars: Seq<BarView>, last_lines: usize, now: u64, mode: Mode) -> usize {
    match mode {
        Mode::Terminal(cols) => held(body_rows(bars, now, cols)),
        Mode::Append => last_lines,
    }
}

/// Holding a sum is the same as holding the sum of what was held.
pub proof fn lemma_held_sum(a: nat, b: nat)
    ensures
        held((held(a) + held(b)) as nat) == held(a + b),
{
}

/// Appends what erases `n` rows to `out`.
pub fn push_erase(out: &mut String, n: usize)
    ensures
        final(out)@ == old(out)@ + erase(n as nat),
{
    let mut i: usize = 0;
    assert(out@ =~= old(out)@ + erase(0));
    while i < n
        invariant
            i <= n,
            out@ == old(out)@ + erase(i as nat),
        decreases n - i,
    {
        proof {
            reveal_strlit("\x1b[F\r\x1b[K");
        }
        out.append("\x1b[F\r\x1b[K");
        i += 1;
        assert("\x1b[F\r\x1b[K"@ =~= erase_row());
        assert(out@ =~= old(out)@ + erase(i as nat));
    }
}

/// Composes the frame for `states` and marks the bars it shows as drawn.
/// Gives the frame and the rows to erase before the next one.
pub fn compose(states: &mut Vec<BarState>, last_lines: usize, now: u64, mode: Mode) -> (r: (
    String,
    usize,
))
    ensures
        bar_views(final(states)@) == settled(bar_views(old(states)@), mode),
        r.0@ == frame_of(bar_views(old(states)@), last_lines, now, mode),
        r.1 == lines_after(bar_views(old(states)@), last_lines, now, mode),
{
    let ghost bars = bar_views(states@);
    let n = states.len();
    let mut frame = String::new();
    let terminal = match mode {
        Mode::Terminal(_) => true,
        Mode::Append => false,
    };
    if terminal && n > 0 {
        push_erase(&mut frame, last_lines);
    }
    let ghost head = frame@;
    let mut rows: usize = 0;
    let mut i: usize = 0;
    assert(bars.subrange(0, 0) =~= Seq::<BarView>::empty());
    while i < n
        invariant
            i <= n == states.len() == bars.len(),
            terminal == (mode is Terminal),
            frame@ == head + body(bars.subrange(0, i as int), now, mode),
            mode matches Mode::Terminal(cols) ==> rows == held(
                body_rows(bars.subrange(0, i as int), now, cols),
            ),
            forall|j: int| 0 <= j < i ==> states@[j]@ == settled(bars, mode)[j],
            forall|j: int| i <= j < n ==> states@[j]@ == bars[j],
        decreases n - i,
    {
        let ghost before = bars.subrange(0, i as int);
        let ghost upto = bars.subrange(0, i + 1);
        proof {
            assert(upto.drop_last() =~= before);
            assert(upto.last() == bars[i as int]);
        }
        let draw = states[i].visible && (terminal || states[i].need_redraw);
        if states[i].visible {
            let text = states[i].render(now);
            if draw {
                frame.append(text.as_str());
                push_char(&mut frame, '\n');
            }
            match mode {
                Mode::Terminal(cols) => {
                    let more = count_rows(text.as_str(), cols);
                    proof {
                        lemma_held_sum(
                            body_rows(before, now, cols),
                            text_rows(bars[i as int].rendered(now), cols),
                        );
                    }
                    rows = add_held(rows, more);
                },
                Mode::Append => {},
            }
        }
        if draw {
            states[i].need_redraw = false;
        }
        assert(frame@ =~= head + body(upto, now, mode));
        i += 1;
    }
    assert(bars.subrange(0, n as int) =~= bars);
    assert(bar_views(states@) =~= settled(bars, mode));
    let lines = match mode {
        Mode::Terminal(_) => rows,
        Mode::Append => last_lines,
    };
    (frame, lines)
}

} // verus!
