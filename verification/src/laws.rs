//! What holds of the library as a whole: of templates and what they render
//! to, of the registry's order, and of the scheduler over several requests.

use crate::frame::body;
use crate::frame::body_rows;
use crate::frame::erase;
use crate::frame::settled;
use crate::frame::shown;
use crate::frame::Mode;
use crate::manager::Drawn;
use crate::manager::Gate;
use crate::manager::ManagerView;
use crate::registry::lemma_position;
use crate::registry::lemma_position_from;
use crate::state::BarView;
use crate::template::compile;
use crate::template::compile_from;
use crate::template::field;
use crate::template::find;
use crate::template::lemma_find;
use crate::template::lemma_find_from;
use crate::template::lines;
use crate::template::literal;
use crate::template::names_field;
use crate::template::Part;
use crate::width::held;
use vstd::prelude::*;

verus! {

/// Instructions in a row display what each part of the row displays, one
/// after the other.
pub proof fn lemma_parts_text_concat(bar: BarView, a: Seq<Part>, b: Seq<Part>, now: u64)
    ensures
        bar.parts_text(a + b, now) == bar.parts_text(a, now) + bar.parts_text(b, now),
    decreases b.len(),
{
    if b.len() == 0 {
        assert(a + b =~= a);
    } else {
        assert((a + b).drop_last() =~= a + b.drop_last());
        assert((a + b).last() == b.last());
        lemma_parts_text_concat(bar, a, b.drop_last(), now);
        assert(bar.parts_text(a + b, now) =~= bar.parts_text(a, now) + bar.parts_text(b, now));
    }
}

/// Literal text, split into its lines, displays as itself.
pub proof fn lemma_lines_text(bar: BarView, t: Seq<char>, now: u64)
    ensures
        bar.parts_text(lines(t), now) == t,
        bar.parts_text(literal(t), now) == t,
    decreases t.len(),
{
    let k = find(t, '\n', 0);
    lemma_find_from(t, '\n', 0);
    if k >= t.len() {
        let one = seq![Part::Text(t)];
        assert(one.drop_last() =~= Seq::<Part>::empty());
        assert(bar.parts_text(one.drop_last(), now) =~= Seq::<char>::empty());
        assert(bar.parts_text(one, now) =~= t);
    } else {
        let head = seq![Part::Text(t.subrange(0, k)), Part::Newline];
        let rest = t.subrange(k + 1, t.len() as int);
        lemma_lines_text(bar, rest, now);
        lemma_parts_text_concat(bar, head, lines(rest), now);
        let first = seq![Part::Text(t.subrange(0, k))];
        assert(head.drop_last() =~= first);
        assert(first.drop_last() =~= Seq::<Part>::empty());
        assert(bar.parts_text(first.drop_last(), now) =~= Seq::<char>::empty());
        assert(bar.parts_text(first, now) =~= t.subrange(0, k));
        assert(bar.parts_text(head, now) =~= t.subrange(0, k) + seq!['\n']);
        assert(t.subrange(0, k) + seq!['\n'] + rest =~= t);
    }
    if t.len() == 0 {
        assert(bar.parts_text(literal(t), now) =~= t);
    }
}

/// Looking for a character in the rest of a text finds what looking in the
/// whole text from there on finds.
pub proof fn lemma_find_suffix(s: Seq<char>, c: char, i: int, from: int)
    requires
        0 <= i <= from <= s.len(),
    ensures
        find(s.subrange(i, s.len() as int), c, from - i) == find(s, c, from) - i,
    decreases s.len() - from,
{
    if from < s.len() && s[from] != c {
        lemma_find_suffix(s, c, i, from + 1);
    }
}

/// The instructions for a template from an index on are those for the rest
/// of the template alone.
pub proof fn lemma_compile_suffix(s: Seq<char>, i: int, pending: Seq<char>)
    requires
        0 <= i <= s.len(),
    ensures
        compile_from(s, i, pending) == compile_from(s.subrange(i, s.len() as int), 0, pending),
    decreases s.len() - i,
{
    let n = s.len() as int;
    let u = s.subrange(i, n);
    if i == 0 {
        assert(u =~= s);
    } else if i < n {
        assert(u[0] == s[i]);
        if i + 1 < n {
            assert(u[1] == s[i + 1]);
        }
        if s[i] == '{' && !(i + 1 < n && s[i + 1] == '{') {
            let j = find(s, '}', i + 1);
            lemma_find_from(s, '}', i + 1);
            lemma_find_suffix(s, '}', i, i + 1);
            if j < n {
                assert(u.subrange(1, j - i) =~= s.subrange(i + 1, j));
                lemma_compile_suffix(s, j + 1, Seq::empty());
                lemma_compile_suffix(u, j - i + 1, Seq::empty());
                assert(u.subrange(j - i + 1, u.len() as int) =~= s.subrange(j + 1, n));
            } else {
                assert(u.subrange(0, u.len() as int) =~= s.subrange(i, n));
            }
        } else if (s[i] == '{' || s[i] == '}') && i + 1 < n && s[i + 1] == s[i] {
            lemma_compile_suffix(s, i + 2, pending.push(s[i]));
            lemma_compile_suffix(u, 2, pending.push(s[i]));
            assert(u.subrange(2, u.len() as int) =~= s.subrange(i + 2, n));
        } else {
            lemma_compile_suffix(s, i + 1, pending.push(s[i]));
            lemma_compile_suffix(u, 1, pending.push(s[i]));
            assert(u.subrange(1, u.len() as int) =~= s.subrange(i + 1, n));
        }
    }
}

/// `t` with every brace doubled: the template that stands for the literal
/// text `t`.
pub open spec fn escape(t: Seq<char>) -> Seq<char>
    decreases t.len(),
{
    if t.len() == 0 {
        Seq::empty()
    } else if t[0] == '{' || t[0] == '}' {
        seq![t[0], t[0]] + escape(t.drop_first())
    } else {
        seq![t[0]] + escape(t.drop_first())
    }
}

/// Behind pending text, a template of doubled braces and other characters
/// displays the pending text and then its own text, each doubled brace once.
pub proof fn lemma_escaped(bar: BarView, t: Seq<char>, pending: Seq<char>, now: u64)
    ensures
        bar.parts_text(compile_from(escape(t), 0, pending), now) == pending + t,
    decreases t.len(),
{
    let e = escape(t);
    if t.len() == 0 {
        lemma_lines_text(bar, pending, now);
        assert(pending + t =~= pending);
    } else {
        let c = t[0];
        let rest = t.drop_first();
        let r = escape(rest);
        let next = pending.push(c);
        lemma_escaped(bar, rest, next, now);
        assert(next + rest =~= pending + t);
        if c == '{' || c == '}' {
            assert(e[0] == c && e[1] == c);
            lemma_compile_suffix(e, 2, next);
            assert(e.subrange(2, e.len() as int) =~= r);
        } else {
            assert(e[0] == c);
            lemma_compile_suffix(e, 1, next);
            assert(e.subrange(1, e.len() as int) =~= r);
        }
    }
}

/// Doubled braces come out as single braces: a template made of literal text
/// with every brace doubled displays exactly that text, whatever the bar.
pub proof fn law_doubled_braces_display_once(bar: BarView, t: Seq<char>, now: u64)
    ensures
        bar.parts_text(compile(escape(t)), now) == t,
{
    lemma_escaped(bar, t, Seq::empty(), now);
    assert(Seq::<char>::empty() + t =~= t);
}

/// A tag that names no field comes out as it went in, braces included,
/// whatever the bar.
pub proof fn law_unknown_tag_displays_itself(bar: BarView, name: Seq<char>, now: u64)
    requires
        !names_field(name),
        forall|i: int| 0 <= i < name.len() ==> name[i] != '}',
        name.len() > 0 ==> name[0] != '{',
    ensures
        bar.parts_text(compile(seq!['{'] + name + seq!['}']), now) == seq!['{'] + name + seq![
            '}',
        ],
{
    let s = seq!['{'] + name + seq!['}'];
    let n = s.len() as int;
    assert(s[0] == '{');
    assert(s[n - 1] == '}');
    assert forall|j: int| 1 <= j < n - 1 implies s[j] != '}' by {
        assert(s[j] == name[j - 1]);
    }
    if name.len() > 0 {
        assert(s[1] == name[0]);
    }
    lemma_find(s, '}', 1, n - 1);
    assert(s.subrange(1, n - 1) =~= name);
    let parts = compile(s);
    assert(compile_from(s, n, Seq::empty()) =~= Seq::<Part>::empty());
    assert(parts =~= field(name));
    assert(field(name) == lines(s));
    lemma_lines_text(bar, s, now);
}

/// Whether no literal text among `parts` holds a line break.
pub open spec fn line_free(parts: Seq<Part>) -> bool {
    forall|i: int, j: int|
        0 <= i < parts.len() && parts[i] is Text && 0 <= j < parts[i]->Text_0.len()
            ==> #[trigger] parts[i]->Text_0[j] != '\n'
}

/// The lines of a text hold no line break.
pub proof fn lemma_lines_line_free(t: Seq<char>)
    ensures
        line_free(lines(t)),
    decreases t.len(),
{
    let k = find(t, '\n', 0);
    lemma_find_from(t, '\n', 0);
    if k < t.len() {
        let head = seq![Part::Text(t.subrange(0, k)), Part::Newline];
        let rest = lines(t.subrange(k + 1, t.len() as int));
        lemma_lines_line_free(t.subrange(k + 1, t.len() as int));
        assert forall|i: int, j: int|
            0 <= i < (head + rest).len() && (head + rest)[i] is Text && 0 <= j < (head
                + rest)[i]->Text_0.len() implies #[trigger] (head + rest)[i]->Text_0[j]
            != '\n' by {
            if i == 0 {
                assert(t.subrange(0, k)[j] == t[j]);
            } else if i >= 2 {
                assert((head + rest)[i] == rest[i - 2]);
            }
        }
    }
}

/// Two rows of instructions without a line break in their text make one.
pub proof fn lemma_line_free_concat(a: Seq<Part>, b: Seq<Part>)
    requires
        line_free(a),
        line_free(b),
    ensures
        line_free(a + b),
{
    assert forall|i: int, j: int|
        0 <= i < (a + b).len() && (a + b)[i] is Text && 0 <= j < (a + b)[i]->Text_0.len()
            implies #[trigger] (a + b)[i]->Text_0[j] != '\n' by {
        if i < a.len() {
            assert((a + b)[i] == a[i]);
        } else {
            assert((a + b)[i] == b[i - a.len()]);
        }
    }
}

/// What a tag compiles to holds no line break in its text.
pub proof fn lemma_field_line_free(name: Seq<char>)
    ensures
        line_free(field(name)),
{
    lemma_lines_line_free(seq!['{'] + name + seq!['}']);
}

/// What a template compiles to from an index on, behind pending text, holds
/// no line break in its text.
pub proof fn lemma_compile_line_free(s: Seq<char>, i: int, pending: Seq<char>)
    ensures
        line_free(compile_from(s, i, pending)),
    decreases s.len() - i,
{
    lemma_lines_line_free(pending);
    if 0 <= i < s.len() {
        if s[i] == '{' && !(i + 1 < s.len() && s[i + 1] == '{') {
            let j = find(s, '}', i + 1);
            lemma_find_from(s, '}', i + 1);
            if j < s.len() {
                lemma_field_line_free(s.subrange(i + 1, j));
                lemma_compile_line_free(s, j + 1, Seq::empty());
                lemma_line_free_concat(literal(pending), field(s.subrange(i + 1, j)));
                lemma_line_free_concat(
                    literal(pending) + field(s.subrange(i + 1, j)),
                    compile_from(s, j + 1, Seq::empty()),
                );
            } else {
                lemma_lines_line_free(s.subrange(i, s.len() as int));
                lemma_line_free_concat(literal(pending), lines(s.subrange(i, s.len() as int)));
            }
        } else if (s[i] == '{' || s[i] == '}') && i + 1 < s.len() && s[i + 1] == s[i] {
            lemma_compile_line_free(s, i + 2, pending.push(s[i]));
        } else {
            lemma_compile_line_free(s, i + 1, pending.push(s[i]));
        }
    }
}

/// Line breaks are split off when a template is compiled: no literal text of
/// a compiled template holds one, so that what renders a bar never has to
/// look for line breaks in the template's text.
pub proof fn law_compiled_text_has_no_line_break(s: Seq<char>)
    ensures
        line_free(compile(s)),
{
    lemma_compile_line_free(s, 0, Seq::empty());
}

/// The registry keeps its order: changing a bar's record, taking a bar out,
/// adding one, and drawing all leave one record for each identifier, the
/// identifiers rising, and none at or above the next to be given out.
pub proof fn law_registry_stays_in_order(
    v: ManagerView,
    id: u64,
    bar: BarView,
    now: u64,
    mode: Mode,
)
    requires
        v.wf(),
    ensures
        v.has(id) ==> v.put(id, bar).wf(),
        v.has(id) ==> v.without(id).wf(),
        v.next_id < u64::MAX ==> v.with_new(bar).wf(),
        v.after_draw(now, mode).wf(),
        v.resumed(now, mode).wf(),
{
    lemma_position_from(v.ids, id, 0);
}

/// An identifier is given out once: the bar that is added gets one that no
/// registered bar has, and a bar that was taken out is not found again,
/// whatever is added later.
pub proof fn law_identifiers_are_not_reused(v: ManagerView, id: u64, bar: BarView)
    requires
        v.wf(),
        v.next_id < u64::MAX,
    ensures
        !v.has(v.next_id),
        v.with_new(bar).has(v.next_id),
        v.with_new(bar).bar(v.next_id) == bar,
        v.has(id) ==> !v.without(id).has(id),
        v.has(id) ==> !v.without(id).with_new(bar).has(id),
{
    lemma_position(v.ids, v.next_id, 0, v.ids.len() as int);
    lemma_position(v.with_new(bar).ids, v.next_id, 0, v.ids.len() as int);
    if v.has(id) {
        lemma_position_from(v.ids, id, 0);
        let k = v.index(id);
        let left = v.without(id);
        assert forall|j: int| 0 <= j < left.ids.len() implies left.ids[j] != id by {
            if j < k {
                assert(left.ids[j] == v.ids[j]);
            } else {
                assert(left.ids[j] == v.ids[j + 1]);
            }
        }
        lemma_position(left.ids, id, 0, left.ids.len() as int);
        let more = left.with_new(bar);
        assert forall|j: int| 0 <= j < more.ids.len() implies more.ids[j] != id by {
            if j < left.ids.len() {
                assert(more.ids[j] == left.ids[j]);
            } else {
                assert(more.ids[j] == v.next_id);
            }
        }
        lemma_position(more.ids, id, 0, more.ids.len() as int);
    }
}

/// The dirty flag drives redraws, not the value: setting a bar's position
/// marks the bar and the manager as changed even when the position is the
/// one the bar already has, so that a request that nobody forced draws
/// exactly when the ticker is off and the interval has passed.
pub proof fn law_same_position_still_asks(v: ManagerView, id: u64, pos: u64, now: u64)
    requires
        v.wf(),
        v.has(id),
    ensures
        ({
            let touched = v.put(id, v.bar(id).moved(pos));
            &&& touched.dirty
            &&& touched.bar(id).need_redraw
            &&& touched.bar(id).pos == pos
            &&& touched.put(id, touched.bar(id).moved(pos)) == touched
            &&& touched.gate(false, now) == if v.ticker {
                Gate::Ticker
            } else if v.throttled(now) {
                Gate::Throttled
            } else {
                Gate::Open
            }
        }),
{
    lemma_position_from(v.ids, id, 0);
    let touched = v.put(id, v.bar(id).moved(pos));
    assert(touched.put(id, touched.bar(id).moved(pos)).bars =~= touched.bars);
}

/// A frame with a bar that it shows is not empty.
pub proof fn lemma_body_holds_shown(bars: Seq<BarView>, i: int, now: u64, mode: Mode)
    requires
        0 <= i < bars.len(),
        shown(bars[i], mode),
    ensures
        body(bars, now, mode).len() > 0,
    decreases bars.len(),
{
    if i < bars.len() - 1 {
        lemma_body_holds_shown(bars.drop_last(), i, now, mode);
    }
}

/// A forced request goes through whatever the interval and the ticker, as
/// long as something changed since the last frame; and with a bar to show,
/// the frame that it hands to the sink is not empty.
pub proof fn law_forced_draw_goes_through(v: ManagerView, i: int, now: u64, mode: Mode)
    requires
        v.dirty,
    ensures
        v.gate(true, now) is Open,
        0 <= i < v.bars.len() && shown(v.bars[i], mode) ==> v.frame(now, mode).len() > 0,
{
    if 0 <= i < v.bars.len() && shown(v.bars[i], mode) {
        lemma_body_holds_shown(v.bars, i, now, mode);
    }
}

/// Two requests that nobody forced, less than the interval apart, draw at
/// most one frame, whatever changed between them.
///
/// `first` is how the request at `now` ended, and `later` is the manager at
/// the second request: it has the interval of `v`, and its last frame is
/// the one that `v` had after the first request.
pub proof fn law_interval_spaces_frames(
    v: ManagerView,
    first: Option<Drawn>,
    later: ManagerView,
    now: u64,
    then: u64,
)
    requires
        first is Some <==> v.gate(false, now) is Open,
        later.interval == v.interval,
        later.last_draw == v.step(now, first).last_draw,
        now <= then,
        then - now < v.interval,
    ensures
        !(v.gate(false, now) is Open && later.gate(false, then) is Open),
{
}

/// Bars are drawn in the order of their creation: the frame for a row of
/// bars is the frame for the first of them followed by the frame for the
/// rest.
pub proof fn law_frame_keeps_creation_order(a: Seq<BarView>, b: Seq<BarView>, now: u64, mode: Mode)
    ensures
        body(a + b, now, mode) == body(a, now, mode) + body(b, now, mode),
    decreases b.len(),
{
    if b.len() == 0 {
        assert(a + b =~= a);
        assert(body(a + b, now, mode) =~= body(a, now, mode) + body(b, now, mode));
    } else {
        assert((a + b).drop_last() =~= a + b.drop_last());
        assert((a + b).last() == b.last());
        law_frame_keeps_creation_order(a, b.drop_last(), now, mode);
        assert(body(a + b, now, mode) =~= body(a, now, mode) + body(b, now, mode));
    }
}

/// A frame of bars of which none is shown is empty.
pub proof fn lemma_body_of_none_shown(bars: Seq<BarView>, now: u64, mode: Mode)
    requires
        forall|i: int| 0 <= i < bars.len() ==> !shown(#[trigger] bars[i], mode),
    ensures
        body(bars, now, mode) == Seq::<char>::empty(),
    decreases bars.len(),
{
    if bars.len() > 0 {
        assert(!shown(bars[bars.len() - 1], mode));
        lemma_body_of_none_shown(bars.drop_last(), now, mode);
    }
}

/// A sink that is no terminal is only added to, and never gets a bar twice
/// that did not change: a frame for it holds no erasure, and the frame that
/// follows a frame, with nothing changed between the two, is empty.
pub proof fn law_unchanged_bars_are_not_added_again(v: ManagerView, now: u64, then: u64)
    ensures
        v.frame(now, Mode::Append) == body(v.bars, now, Mode::Append),
        v.after_draw(now, Mode::Append).frame(then, Mode::Append) == Seq::<char>::empty(),
{
    lemma_body_of_none_shown(settled(v.bars, Mode::Append), then, Mode::Append);
}

/// A frame is drawn once for what changed: after a frame, every request is
/// dropped until something changes again, forced or not.
pub proof fn law_nothing_changed_nothing_drawn(
    v: ManagerView,
    now: u64,
    mode: Mode,
    force: bool,
    then: u64,
)
    ensures
        !(v.after_draw(now, mode).gate(force, then) is Open),
{
}

/// A terminal frame erases exactly the rows that the terminal frame before
/// it took: after a frame on a terminal, the next one on a terminal starts
/// with the erasure of as many rows as the bars of the first took, and goes
/// on with the bars.
pub proof fn law_next_frame_erases_the_last(
    v: ManagerView,
    now: u64,
    cols: u16,
    then: u64,
    next: u16,
)
    requires
        v.bars.len() > 0,
    ensures
        ({
            let drawn = v.after_draw(now, Mode::Terminal(cols));
            &&& drawn.last_lines == held(body_rows(v.bars, now, cols))
            &&& drawn.frame(then, Mode::Terminal(next)) == erase(drawn.last_lines as nat) + body(
                drawn.bars,
                then,
                Mode::Terminal(next),
            )
        }),
{
}

} // verus!
