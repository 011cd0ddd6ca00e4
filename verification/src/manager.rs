//! The manager: the registry, the output sink, and the scheduler that
//! decides on every request whether a frame is drawn.
//!
//! Times are readings of one monotonic clock, in nanoseconds.

use crate::bar::Bar;
use crate::frame::bar_views;
use crate::frame::body;
use crate::frame::compose;
use crate::frame::erase;
use crate::frame::frame_of;
use crate::frame::lines_after;
use crate::frame::push_erase;
use crate::frame::settled;
use crate::frame::Mode;
use crate::registry::lemma_position;
use crate::registry::lemma_position_from;
use crate::registry::lemma_views_push;
use crate::registry::lemma_views_remove;
use crate::registry::position;
use crate::registry::rising;
use crate::registry::Registry;
use crate::sink::Out;
use crate::state::BarState;
use crate::state::BarView;
use crate::template::compile;
use crate::template::Template;
use crate::width::effective_width;
use vstd::prelude::*;
use vstd::string::StringExecFns;
use vstd::utf8::encode_utf8;

verus! {

/// What becomes of a draw request.
#[derive(Clone, Copy, Debug, PartialEq, Eq, Structural)]
pub enum Gate {
    /// Dropped: the request was not forced and the ticker sets the pace.
    Ticker,
    /// Dropped: the request was not forced and the last frame is younger
    /// than the interval.
    Throttled,
    /// Dropped: nothing changed since the last frame.
    Clean,
    /// A frame is drawn.
    Open,
}

/// What a request that drew a frame found and did.
#[derive(Clone, Copy, Debug, PartialEq, Eq, Structural)]
pub struct Drawn {
    /// How the frame was drawn: what the manager was told to take the sink
    /// for, or what the sink said of itself.
    pub mode: Mode,
    /// Whether the sink took the frame.
    pub delivered: bool,
}

/// What the caller of `set_ticker` has to do about the ticker's thread.
#[derive(Clone, Copy, Debug, PartialEq, Eq, Structural)]
pub enum TickerChange {
    /// Start it: the ticker was off and is now on.
    Start,
    /// Stop it and wait for it: the ticker was on and is now off.
    Stop,
    /// Nothing: the ticker already was what it was set to.
    Keep,
}

/// The manager without its sink, as the contracts see it.
pub struct ManagerView {
    /// The identifiers of the registered bars, in creation order.
    pub ids: Seq<u64>,
    /// Their records, in the same order.
    pub bars: Seq<BarView>,
    /// The identifier that the next bar gets.
    pub next_id: u64,
    /// The least time between two frames that nobody forced.
    pub interval: u64,
    /// When the last frame was drawn, if one was.
    pub last_draw: Option<u64>,
    /// The terminal rows that the last frame on a terminal took.
    pub last_lines: usize,
    /// Whether anything changed since the last frame.
    pub dirty: bool,
    /// What to take the sink for: a terminal, no terminal, or what it says.
    pub ansi: Option<bool>,
    /// Whether the ticker is on.
    pub ticker: bool,
}

impl BarView {
    /// The bar at position `pos`, due to be drawn.
    pub open spec fn moved(self, pos: u64) -> BarView {
        BarView { pos, need_redraw: true, ..self }
    }

    /// The bar with length `len`, due to be drawn.
    pub open spec fn resized(self, len: u64) -> BarView {
        BarView { len, need_redraw: true, ..self }
    }

    /// The bar with the message `message`, due to be drawn.
    pub open spec fn saying(self, message: Seq<char>) -> BarView {
        BarView { message, need_redraw: true, ..self }
    }

    /// The bar with the template `template` compiled, due to be drawn.
    pub open spec fn styled(self, template: Seq<char>) -> BarView {
        BarView { template: compile(template), need_redraw: true, ..self }
    }

    /// The bar shown or hidden, due to be drawn.
    pub open spec fn showing(self, visible: bool) -> BarView {
        BarView { visible, need_redraw: true, ..self }
    }
}

impl ManagerView {
    /// A manager without bars that has drawn nothing yet.
    pub open spec fn fresh(interval: u64) -> ManagerView {
        ManagerView {
            ids: Seq::empty(),
            bars: Seq::empty(),
            next_id: 0,
            interval,
            last_draw: None,
            last_lines: 0,
            dirty: false,
            ansi: None,
            ticker: false,
        }
    }

    /// Whether the registry is in order: one record for each identifier, no
    /// identifier twice, none that is yet to be given out.
    pub open spec fn wf(self) -> bool {
        &&& self.ids.len() == self.bars.len()
        &&& rising(self.ids, self.next_id)
    }

    /// The index of the bar `id`; the number of bars when it is not
    /// registered.
    pub open spec fn index(self, id: u64) -> int {
        position(self.ids, id, 0)
    }

    /// Whether the bar `id` is registered.
    pub open spec fn has(self, id: u64) -> bool {
        self.index(id) < self.ids.len()
    }

    /// The record of the bar `id`.
    pub open spec fn bar(self, id: u64) -> BarView
        recommends
            self.has(id),
    {
        self.bars[self.index(id)]
    }

    /// The manager with something changed.
    pub open spec fn marked(self) -> ManagerView {
        ManagerView { dirty: true, ..self }
    }

    /// The manager with `bar` as the record of the bar `id`, and something
    /// changed.
    pub open spec fn put(self, id: u64, bar: BarView) -> ManagerView
        recommends
            self.has(id),
    {
        ManagerView { bars: self.bars.update(self.index(id), bar), dirty: true, ..self }
    }

    /// The manager without the bar `id`, and something changed.
    pub open spec fn without(self, id: u64) -> ManagerView
        recommends
            self.has(id),
    {
        ManagerView {
            ids: self.ids.remove(self.index(id)),
            bars: self.bars.remove(self.index(id)),
            dirty: true,
            ..self
        }
    }

    /// The manager with `bar` registered behind the others under the next
    /// identifier. A visible bar counts as a change.
    pub open spec fn with_new(self, bar: BarView) -> ManagerView {
        ManagerView {
            ids: self.ids.push(self.next_id),
            bars: self.bars.push(bar),
            next_id: (self.next_id + 1) as u64,
            dirty: self.dirty || bar.visible,
            ..self
        }
    }

    /// Whether the last frame is younger at `now` than the interval. Before
    /// the first frame nothing is.
    pub open spec fn throttled(self, now: u64) -> bool {
        match self.last_draw {
            Some(last) => (if now >= last {
                now - last
            } else {
                0
            }) < self.interval,
            None => false,
        }
    }

    /// What becomes of a draw request at `now`.
    pub open spec fn gate(self, force: bool, now: u64) -> Gate {
        if !force && self.ticker {
            Gate::Ticker
        } else if !force && self.throttled(now) {
            Gate::Throttled
        } else if !self.dirty {
            Gate::Clean
        } else {
            Gate::Open
        }
    }

    /// The frame that a draw at `now` in `mode` hands to the sink.
    pub open spec fn frame(self, now: u64, mode: Mode) -> Seq<char> {
        frame_of(self.bars, self.last_lines, now, mode)
    }

    /// The manager after a frame was drawn at `now` in `mode`.
    pub open spec fn after_draw(self, now: u64, mode: Mode) -> ManagerView {
        ManagerView {
            bars: settled(self.bars, mode),
            last_draw: Some(now),
            last_lines: lines_after(self.bars, self.last_lines, now, mode),
            dirty: false,
            ..self
        }
    }

    /// The manager after a draw request at `now` that ended as `report`
    /// says: with a frame drawn, or unchanged.
    pub open spec fn step(self, now: u64, report: Option<Drawn>) -> ManagerView {
        match report {
            Some(drawn) => self.after_draw(now, drawn.mode),
            None => self,
        }
    }

    /// The manager after the bars were put back on the sink at `now`: on a
    /// terminal every visible bar is drawn anew, elsewhere nothing is done.
    pub open spec fn resumed(self, now: u64, mode: Mode) -> ManagerView {
        match mode {
            Mode::Terminal(_) => ManagerView {
                bars: settled(self.bars, mode),
                last_lines: lines_after(self.bars, self.last_lines, now, mode),
                ..self
            },
            Mode::Append => self,
        }
    }
}

/// What a draw request at `now` makes of the manager `pre`, which so far
/// has handed `handed` to its sink `sink`: the manager `post`, which has
/// handed over `sent` to the sink `after`, and `report`.
///
/// A frame is drawn exactly when the request is let through. Then the mode
/// is the forced one where one is forced, the manager is as after that
/// frame, and the frame's bytes were handed to the sink, once and whole.
/// Otherwise nothing changes.
pub open spec fn requested<O: Out>(
    pre: ManagerView,
    handed: Seq<u8>,
    sink: O,
    post: ManagerView,
    sent: Seq<u8>,
    after: O,
    report: Option<Drawn>,
    force: bool,
    now: u64,
) -> bool {
    &&& report is Some <==> pre.gate(force, now) is Open
    &&& post == pre.step(now, report)
    &&& match report {
        Some(drawn) => {
            &&& drawn.mode.honors(pre.ansi)
            &&& sent == handed + encode_utf8(pre.frame(now, drawn.mode))
        },
        None => sent == handed && after == sink,
    }
}

/// The owner of the bars, of the sink they are drawn on, and of the
/// scheduler's state.
pub struct Manager<O: Out> {
    registry: Registry,
    interval: u64,
    last_draw: Option<u64>,
    last_lines: usize,
    need_redraw: bool,
    ansi: Option<bool>,
    ticker: bool,
    report: Option<Drawn>,
    handed: Ghost<Seq<u8>>,
    out: O,
}

impl<O: Out> View for Manager<O> {
    type V = ManagerView;

    closed spec fn view(&self) -> ManagerView {
        ManagerView {
            ids: self.registry.ids@,
            bars: bar_views(self.registry.states@),
            next_id: self.registry.next_id,
            interval: self.interval,
            last_draw: self.last_draw,
            last_lines: self.last_lines,
            dirty: self.need_redraw,
            ansi: self.ansi,
            ticker: self.ticker,
        }
    }
}

impl<O: Out> Manager<O> {
    /// The sink.
    pub closed spec fn sink(&self) -> O {
        self.out
    }

    /// How the last draw request ended: with a frame, or dropped.
    pub closed spec fn outcome(&self) -> Option<Drawn> {
        self.report
    }

    /// The bytes that the manager has handed to its sink so far, in order,
    /// whichever sink it had at the time.
    pub closed spec fn handed(&self) -> Seq<u8> {
        self.handed@
    }

    /// Whether `post` differs from `pre` in nothing but its state as the
    /// contracts see it: the sink is the same, as much was handed to it, and
    /// the last request ended the same.
    pub open spec fn quiet(pre: Self, post: Self) -> bool {
        &&& post.sink() == pre.sink()
        &&& post.handed() == pre.handed()
        &&& post.outcome() == pre.outcome()
    }

    /// Whether `post` is `pre` after a draw request at `now`.
    pub open spec fn drew(pre: Self, post: Self, force: bool, now: u64) -> bool {
        requested(
            pre@,
            pre.handed(),
            pre.sink(),
            post@,
            post.handed(),
            post.sink(),
            post.outcome(),
            force,
            now,
        )
    }

    /// Whether `post` is `pre` after the bar `id` got the record `bar` and a
    /// draw was requested at `now`; with no such bar, whether the two are
    /// the same.
    pub open spec fn applied(pre: Self, post: Self, id: u64, bar: BarView, force: bool, now: u64)
        -> bool {
        if pre@.has(id) {
            requested(
                pre@.put(id, bar),
                pre.handed(),
                pre.sink(),
                post@,
                post.handed(),
                post.sink(),
                post.outcome(),
                force,
                now,
            )
        } else {
            post == pre
        }
    }

    /// Whether `post` is `pre` after `finish` on the bar `id` at `now`: the
    /// position is set to the length where it was not there, then a draw is
    /// forced. With no such bar the two are the same.
    pub open spec fn finished(pre: Self, post: Self, id: u64, now: u64) -> bool {
        if pre@.has(id) {
            let bar = pre@.bar(id);
            let touched = if bar.pos != bar.len {
                pre@.put(id, bar.moved(bar.len))
            } else {
                pre@
            };
            requested(
                touched,
                pre.handed(),
                pre.sink(),
                post@,
                post.handed(),
                post.sink(),
                post.outcome(),
                true,
                now,
            )
        } else {
            post == pre
        }
    }

    /// Whether `post` is `pre` after the bar `id` was taken out and a draw
    /// was forced at `now`. With no such bar the two are the same.
    pub open spec fn released(pre: Self, post: Self, id: u64, now: u64) -> bool {
        if pre@.has(id) {
            requested(
                pre@.without(id),
                pre.handed(),
                pre.sink(),
                post@,
                post.handed(),
                post.sink(),
                post.outcome(),
                true,
                now,
            )
        } else {
            post == pre
        }
    }

    /// A manager that draws on `out`, with no bars, the ticker off, and the
    /// sink asked on each frame whether it is a terminal. Requests that
    /// nobody forced draw at most one frame in `interval` nanoseconds.
    pub fn new(interval: u64, out: O) -> (m: Self)
        ensures
            m@ == ManagerView::fresh(interval),
            m@.wf(),
            m.sink() == out,
            m.outcome() is None,
            m.handed() == Seq::<u8>::empty(),
    {
        let m = Manager {
            registry: Registry::new(),
            interval,
            last_draw: None,
            last_lines: 0,
            need_redraw: false,
            ansi: None,
            ticker: false,
            report: None,
            handed: Ghost(Seq::empty()),
            out,
        };
        assert(m@.bars =~= Seq::<BarView>::empty());
        m
    }

    /// Puts `out` in the place of the sink. This counts as a change.
    pub fn with_out(self, out: O) -> (m: Self)
        requires
            self@.wf(),
        ensures
            m@ == self@.marked(),
            m.sink() == out,
            m.outcome() == self.outcome(),
            m.handed() == self.handed(),
            m@.wf(),
    {
        Manager {
            registry: self.registry,
            interval: self.interval,
            last_draw: self.last_draw,
            last_lines: self.last_lines,
            need_redraw: true,
            ansi: self.ansi,
            ticker: self.ticker,
            report: self.report,
            handed: self.handed,
            out,
        }
    }

    /// Lets the sink say on each frame whether it is a terminal. This counts
    /// as a change.
    pub fn auto_ansi(self) -> (m: Self)
        requires
            self@.wf(),
        ensures
            m@ == (ManagerView { ansi: None, dirty: true, ..self@ }),
            Self::quiet(self, m),
            m@.wf(),
    {
        let mut m = self;
        m.set_ansi(None);
        m
    }

    /// Takes the sink for a terminal, or for none, whatever it says. This
    /// counts as a change.
    pub fn force_ansi(self, force: bool) -> (m: Self)
        requires
            self@.wf(),
        ensures
            m@ == (ManagerView { ansi: Some(force), dirty: true, ..self@ }),
            Self::quiet(self, m),
            m@.wf(),
    {
        let mut m = self;
        m.set_ansi(Some(force));
        m
    }

    /// Sets what the sink is taken for: a terminal, no terminal, or what it
    /// says of itself on each frame. This counts as a change.
    pub fn set_ansi(&mut self, ansi: Option<bool>)
        requires
            old(self)@.wf(),
        ensures
            final(self)@ == (ManagerView { ansi, dirty: true, ..old(self)@ }),
            Self::quiet(*old(self), *final(self)),
            final(self)@.wf(),
    {
        self.ansi = ansi;
        self.need_redraw = true;
    }

    /// Records that something changed, so that the next request that passes
    /// the other gates draws.
    pub fn mark_redraw(&mut self)
        requires
            old(self)@.wf(),
        ensures
            final(self)@ == old(self)@.marked(),
            Self::quiet(*old(self), *final(self)),
            final(self)@.wf(),
    {
        self.need_redraw = true;
    }

    /// The least time between two frames that nobody forced, in nanoseconds.
    pub fn interval(&self) -> (interval: u64)
        ensures
            interval == self@.interval,
    {
        self.interval
    }

    /// Whether the ticker is on.
    pub fn is_ticker_enabled(&self) -> (on: bool)
        ensures
            on == self@.ticker,
    {
        self.ticker
    }

    /// Turns the ticker on or off, and says what that asks of its thread.
    /// While the ticker is on, requests that nobody forced are dropped.
    pub fn set_ticker(&mut self, set_ticker: bool) -> (change: TickerChange)
        requires
            old(self)@.wf(),
        ensures
            final(self)@ == (ManagerView { ticker: set_ticker, ..old(self)@ }),
            Self::quiet(*old(self), *final(self)),
            change == if set_ticker && !old(self)@.ticker {
                TickerChange::Start
            } else if !set_ticker && old(self)@.ticker {
                TickerChange::Stop
            } else {
                TickerChange::Keep
            },
            final(self)@.wf(),
    {
        let was = self.ticker;
        self.ticker = set_ticker;
        if set_ticker && !was {
            TickerChange::Start
        } else if !set_ticker && was {
            TickerChange::Stop
        } else {
            TickerChange::Keep
        }
    }

    /// The sink.
    pub fn out(&self) -> (out: &O)
        ensures
            *out == self.sink(),
    {
        &self.out
    }

    /// How the last draw request ended: with a frame, or dropped.
    pub fn last_report(&self) -> (report: Option<Drawn>)
        ensures
            report == self.outcome(),
    {
        self.report
    }

    /// The terminal rows that the last frame on a terminal took.
    pub fn last_lines(&self) -> (rows: usize)
        ensures
            rows == self@.last_lines,
    {
        self.last_lines
    }

    /// How many bars are registered.
    pub fn bars(&self) -> (n: usize)
        ensures
            n == self@.ids.len(),
    {
        self.registry.ids.len()
    }

    /// What becomes of a draw request at `now`.
    pub fn gate(&self, force: bool, now: u64) -> (gate: Gate)
        ensures
            gate == self@.gate(force, now),
    {
        if !force && self.ticker {
            return Gate::Ticker;
        }
        if !force {
            match self.last_draw {
                Some(last) => {
                    let since: u64 = if now >= last {
                        now - last
                    } else {
                        0
                    };
                    if since < self.interval {
                        return Gate::Throttled;
                    }
                },
                None => {},
            }
        }
        if !self.need_redraw {
            Gate::Clean
        } else {
            Gate::Open
        }
    }

    /// How the next frame is drawn: as forced, or else as the sink says of
    /// itself now.
    fn probe(&self) -> (mode: Mode)
        ensures
            mode.honors(self@.ansi),
    {
        let terminal = match self.ansi {
            Some(forced) => forced,
            None => self.out.is_terminal(),
        };
        if terminal {
            Mode::Terminal(effective_width(self.out.columns()))
        } else {
            Mode::Append
        }
    }

    /// Asks for a frame at `now`.
    ///
    /// A request that nobody forced is dropped while the ticker is on, and
    /// while the last frame is younger than the interval. Any request is
    /// dropped when nothing changed since the last frame. Otherwise the
    /// frame is drawn: on a terminal the rows of the last frame are erased
    /// and every visible bar is drawn, elsewhere the visible bars that
    /// changed are added. A sink that fails is not tried again.
    pub fn draw(&mut self, force: bool, now: u64)
        requires
            old(self)@.wf(),
        ensures
            Self::drew(*old(self), *final(self), force, now),
            final(self)@.wf(),
    {
        match self.gate(force, now) {
            Gate::Open => {},
            _ => {
                self.report = None;
                return ;
            },
        }
        let mode = self.probe();
        let (frame, lines) = compose(&mut self.registry.states, self.last_lines, now, mode);
        let delivered = self.out.write_all(frame.as_str().as_bytes());
        self.handed = Ghost(self.handed@ + encode_utf8(frame@));
        self.need_redraw = false;
        self.last_lines = lines;
        self.last_draw = Some(now);
        self.report = Some(Drawn { mode, delivered });
    }

    /// Registers a bar of length `len` at position zero, created at `now`,
    /// and gives its handle. A visible bar counts as a change and forces a
    /// draw; an invisible one does neither.
    pub fn create_bar(&mut self, len: u64, message: &str, template: &str, visible: bool, now: u64)
        -> (bar: Bar)
        requires
            old(self)@.wf(),
            old(self)@.next_id < u64::MAX,
        ensures
            bar.id == old(self)@.next_id,
            !old(self)@.has(bar.id),
            final(self)@.has(bar.id),
            final(self)@.wf(),
            ({
                let record = BarView {
                    len,
                    pos: 0,
                    message: message@,
                    template: compile(template@),
                    created_at: now,
                    visible,
                    need_redraw: true,
                };
                if visible {
                    requested(
                        old(self)@.with_new(record),
                        old(self).handed(),
                        old(self).sink(),
                        final(self)@,
                        final(self).handed(),
                        final(self).sink(),
                        final(self).outcome(),
                        true,
                        now,
                    )
                } else {
                    &&& final(self)@ == old(self)@.with_new(record)
                    &&& Self::quiet(*old(self), *final(self))
                }
            }),
    {
        let state = BarState::new(len, message, template, visible, now);
        proof {
            lemma_views_push(self.registry.states@, state);
            lemma_position_from(self.registry.ids@, self.registry.next_id, 0);
        }
        let id = self.registry.insert(state);
        proof {
            lemma_position(self.registry.ids@, id, 0, self.registry.ids@.len() - 1);
        }
        if visible {
            self.need_redraw = true;
            self.draw(true, now);
        }
        Bar { id }
    }

    /// Takes the bars off the sink so that something else can be written to
    /// it: on a terminal the rows of the last frame are erased, elsewhere
    /// nothing is done. Gives the mode, and whether the sink took what was
    /// written.
    pub fn pause(&mut self) -> (paused: Drawn)
        requires
            old(self)@.wf(),
        ensures
            final(self)@ == old(self)@,
            final(self).outcome() == old(self).outcome(),
            paused.mode.honors(old(self)@.ansi),
            match paused.mode {
                Mode::Terminal(_) => final(self).handed() == old(self).handed() + encode_utf8(
                    erase(old(self)@.last_lines as nat),
                ),
                Mode::Append => paused.delivered && Self::quiet(*old(self), *final(self)),
            },
            final(self)@.wf(),
    {
        let mode = self.probe();
        match mode {
            Mode::Terminal(_) => {
                let mut text = String::new();
                push_erase(&mut text, self.last_lines);
                assert(text@ =~= erase(self.last_lines as nat));
                let delivered = self.out.write_all(text.as_str().as_bytes());
                self.handed = Ghost(self.handed@ + encode_utf8(text@));
                Drawn { mode, delivered }
            },
            Mode::Append => Drawn { mode, delivered: true },
        }
    }

    /// Puts the bars back on the sink after `pause` gave `mode`: on a
    /// terminal every visible bar is drawn at `now`, elsewhere nothing is
    /// done. Says whether the sink took what was written.
    pub fn resume(&mut self, mode: Mode, now: u64) -> (delivered: bool)
        requires
            old(self)@.wf(),
        ensures
            final(self)@ == old(self)@.resumed(now, mode),
            final(self).outcome() == old(self).outcome(),
            match mode {
                Mode::Terminal(_) => final(self).handed() == old(self).handed() + encode_utf8(
                    body(old(self)@.bars, now, mode),
                ),
                Mode::Append => delivered && Self::quiet(*old(self), *final(self)),
            },
            final(self)@.wf(),
    {
        match mode {
            Mode::Terminal(_) => {
                let (frame, lines) = compose(&mut self.registry.states, 0, now, mode);
                assert(frame@ =~= body(old(self)@.bars, now, mode));
                let delivered = self.out.write_all(frame.as_str().as_bytes());
                self.handed = Ghost(self.handed@ + encode_utf8(frame@));
                self.last_lines = lines;
                delivered
            },
            Mode::Append => true,
        }
    }

    /// Takes the bars off the sink, runs `work` on the sink, and puts the
    /// bars back at `now`, as `pause` and `resume` do. The report tells the
    /// mode, and whether the sink took what the manager wrote.
    pub fn suspend<R, F: FnOnce(&mut O) -> R>(&mut self, work: F, now: u64) -> (result: R)
        requires
            old(self)@.wf(),
            forall|sink: &mut O| work.requires((sink,)),
        ensures
            exists|sink: &mut O| work.ensures((sink,), result),
            final(self).outcome() matches Some(drawn) && drawn.mode.honors(old(self)@.ansi)
                && final(self)@ == old(self)@.resumed(now, drawn.mode) && final(self).handed()
                == old(self).handed() + match drawn.mode {
                Mode::Terminal(_) => encode_utf8(erase(old(self)@.last_lines as nat))
                    + encode_utf8(body(old(self)@.bars, now, drawn.mode)),
                Mode::Append => Seq::empty(),
            },
            final(self)@.wf(),
    {
        let paused = self.pause();
        let result = work(&mut self.out);
        let resumed = self.resume(paused.mode, now);
        self.report = Some(Drawn { mode: paused.mode, delivered: paused.delivered && resumed });
        result
    }

    /// Forces a last draw at `now`, as `draw` does, and gives up the sink,
    /// with how that request ended. This is what the end of a manager's use
    /// comes to.
    pub fn close(self, now: u64) -> (end: (O, Option<Drawn>))
        requires
            self@.wf(),
        ensures
            exists|last: Self|
                Self::drew(self, last, true, now) && end.0 == last.sink() && end.1
                    == last.outcome(),
    {
        let mut m = self;
        m.draw(true, now);
        let ghost last = m;
        assert(Self::drew(self, last, true, now) && m.out == last.sink() && m.report
            == last.outcome());
        (m.out, m.report)
    }

    /// Gives up the sink without another frame.
    pub fn into_out(self) -> (out: O)
        ensures
            out == self.sink(),
    {
        self.out
    }

    /// The identifier that the next bar gets.
    pub fn next_id(&self) -> (id: u64)
        ensures
            id == self@.next_id,
    {
        self.registry.next_id
    }

    /// Whether the bar `id` is registered.
    pub fn contains(&self, id: u64) -> (found: bool)
        requires
            self@.wf(),
        ensures
            found == self@.has(id),
    {
        self.registry.lookup(id).is_some()
    }

    /// The position of the bar `id`; zero when it is not registered.
    pub fn get_pos(&self, id: u64) -> (pos: u64)
        requires
            self@.wf(),
        ensures
            pos == if self@.has(id) {
                self@.bar(id).pos
            } else {
                0
            },
    {
        match self.registry.lookup(id) {
            Some(i) => self.registry.states[i].pos,
            None => 0,
        }
    }

    /// The length of the bar `id`; zero when it is not registered.
    pub fn get_len(&self, id: u64) -> (len: u64)
        requires
            self@.wf(),
        ensures
            len == if self@.has(id) {
                self@.bar(id).len
            } else {
                0
            },
    {
        match self.registry.lookup(id) {
            Some(i) => self.registry.states[i].len,
            None => 0,
        }
    }

    /// Whether the bar `id` is visible; false when it is not registered.
    pub fn is_visible(&self, id: u64) -> (visible: bool)
        requires
            self@.wf(),
        ensures
            visible == (self@.has(id) && self@.bar(id).visible),
    {
        match self.registry.lookup(id) {
            Some(i) => self.registry.states[i].visible,
            None => false,
        }
    }

    /// Moves the bar `id` on by `n` and asks for a frame at `now`. Nothing
    /// is done when the bar is not registered.
    pub fn inc(&mut self, id: u64, n: u64, now: u64)
        requires
            old(self)@.wf(),
            old(self)@.has(id) ==> old(self)@.bar(id).pos + n <= u64::MAX,
        ensures
            Self::applied(
                *old(self),
                *final(self),
                id,
                old(self)@.bar(id).moved((old(self)@.bar(id).pos + n) as u64),
                false,
                now,
            ),
            final(self)@.wf(),
    {
        match self.registry.lookup(id) {
            Some(i) => {
                let pos: u64 = self.registry.states[i].pos + n;
                self.registry.states[i].pos = pos;
                self.registry.states[i].need_redraw = true;
                self.need_redraw = true;
                assert(self@.bars =~= old(self)@.bars.update(
                    i as int,
                    old(self)@.bar(id).moved(pos),
                ));
                self.draw(false, now);
            },
            None => {},
        }
    }

    /// Sets the position of the bar `id` and asks for a frame at `now`; the
    /// bar is due to be drawn whether or not the position is a new one.
    /// Nothing is done when the bar is not registered.
    pub fn set_pos(&mut self, id: u64, pos: u64, now: u64)
        requires
            old(self)@.wf(),
        ensures
            Self::applied(
                *old(self),
                *final(self),
                id,
                old(self)@.bar(id).moved(pos),
                false,
                now,
            ),
            final(self)@.wf(),
    {
        match self.registry.lookup(id) {
            Some(i) => {
                self.registry.states[i].pos = pos;
                self.registry.states[i].need_redraw = true;
                self.need_redraw = true;
                assert(self@.bars =~= old(self)@.bars.update(
                    i as int,
                    old(self)@.bar(id).moved(pos),
                ));
                self.draw(false, now);
            },
            None => {},
        }
    }

    /// Sets the length of the bar `id` and asks for a frame at `now`.
    /// Nothing is done when the bar is not registered.
    pub fn set_len(&mut self, id: u64, len: u64, now: u64)
        requires
            old(self)@.wf(),
        ensures
            Self::applied(
                *old(self),
                *final(self),
                id,
                old(self)@.bar(id).resized(len),
                false,
                now,
            ),
            final(self)@.wf(),
    {
        match self.registry.lookup(id) {
            Some(i) => {
                self.registry.states[i].len = len;
                self.registry.states[i].need_redraw = true;
                self.need_redraw = true;
                assert(self@.bars =~= old(self)@.bars.update(
                    i as int,
                    old(self)@.bar(id).resized(len),
                ));
                self.draw(false, now);
            },
            None => {},
        }
    }

    /// Sets the message of the bar `id` and asks for a frame at `now`.
    /// Nothing is done when the bar is not registered.
    pub fn set_message(&mut self, id: u64, message: &str, now: u64)
        requires
            old(self)@.wf(),
        ensures
            Self::applied(
                *old(self),
                *final(self),
                id,
                old(self)@.bar(id).saying(message@),
                false,
                now,
            ),
            final(self)@.wf(),
    {
        match self.registry.lookup(id) {
            Some(i) => {
                self.registry.states[i].message = String::from_str(message);
                self.registry.states[i].need_redraw = true;
                self.need_redraw = true;
                assert(self@.bars =~= old(self)@.bars.update(
                    i as int,
                    old(self)@.bar(id).saying(message@),
                ));
                self.draw(false, now);
            },
            None => {},
        }
    }

    /// Compiles `template`, sets it as the template of the bar `id`, and
    /// asks for a frame at `now`. Nothing is done when the bar is not
    /// registered.
    pub fn set_template(&mut self, id: u64, template: &str, now: u64)
        requires
            old(self)@.wf(),
        ensures
            Self::applied(
                *old(self),
                *final(self),
                id,
                old(self)@.bar(id).styled(template@),
                false,
                now,
            ),
            final(self)@.wf(),
    {
        match self.registry.lookup(id) {
            Some(i) => {
                self.registry.states[i].template = Template::new(template);
                self.registry.states[i].need_redraw = true;
                self.need_redraw = true;
                assert(self@.bars =~= old(self)@.bars.update(
                    i as int,
                    old(self)@.bar(id).styled(template@),
                ));
                self.draw(false, now);
            },
            None => {},
        }
    }

    /// Shows or hides the bar `id`. Where that changes anything, a draw is
    /// forced at `now`; where it does not, or the bar is not registered,
    /// nothing is done.
    pub fn set_visible(&mut self, id: u64, visible: bool, now: u64)
        requires
            old(self)@.wf(),
        ensures
            if old(self)@.has(id) && old(self)@.bar(id).visible != visible {
                Self::applied(
                    *old(self),
                    *final(self),
                    id,
                    old(self)@.bar(id).showing(visible),
                    true,
                    now,
                )
            } else {
                *final(self) == *old(self)
            },
            final(self)@.wf(),
    {
        match self.registry.lookup(id) {
            Some(i) => {
                if self.registry.states[i].visible != visible {
                    self.registry.states[i].visible = visible;
                    self.registry.states[i].need_redraw = true;
                    self.need_redraw = true;
                    assert(self@.bars =~= old(self)@.bars.update(
                        i as int,
                        old(self)@.bar(id).showing(visible),
                    ));
                    self.draw(true, now);
                }
            },
            None => {},
        }
    }

    /// Sets the position of the bar `id` to its length, where it is not
    /// there, and forces a draw at `now`. Nothing is done when the bar is
    /// not registered.
    pub fn finish(&mut self, id: u64, now: u64)
        requires
            old(self)@.wf(),
        ensures
            Self::finished(*old(self), *final(self), id, now),
            final(self)@.wf(),
    {
        match self.registry.lookup(id) {
            Some(i) => {
                let len: u64 = self.registry.states[i].len;
                if self.registry.states[i].pos != len {
                    self.registry.states[i].pos = len;
                    self.registry.states[i].need_redraw = true;
                    self.need_redraw = true;
                    assert(self@.bars =~= old(self)@.bars.update(
                        i as int,
                        old(self)@.bar(id).moved(len),
                    ));
                }
                self.draw(true, now);
            },
            None => {},
        }
    }

    /// Takes the bar `id` out of the registry and forces a draw at `now`.
    /// Nothing is done when the bar is not registered.
    pub fn remove(&mut self, id: u64, now: u64)
        requires
            old(self)@.wf(),
        ensures
            Self::released(*old(self), *final(self), id, now),
            final(self)@.wf(),
    {
        match self.registry.lookup(id) {
            Some(i) => {
                proof {
                    lemma_views_remove(self.registry.states@, i as int);
                }
                let _ = self.registry.remove(i);
                self.need_redraw = true;
                self.draw(true, now);
            },
            None => {},
        }
    }
}

} // verus!
