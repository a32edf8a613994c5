//! Views that wrap another view: one that remembers the size it was laid
//! out for, and one that scrolls.

use vstd::prelude::*;
use crate::backend::{Backend, prints_all, DrawOp, draws, through_ops, through_op, print_steps, lemma_through_push, lemma_through_concat, lemma_draws_concat, lemma_put_draws, lemma_draws_none, lemma_prints_draw};
use crate::event::{EventLike, KeyEventLike, MouseEventLike};
use crate::event_result::{EventResult, IGNORE};
use crate::orientation::Orientation;
use crate::printer::{Printer, MAX_HORIZONTAL_LINE, print_fits, sliced_bound, print_clip, column_ops, repeated};
use crate::rect::Rect;
use crate::vec2::{Vec2, sat_sub, sat_add, add_fits, vec_add};
use crate::widget::Widget;

verus! {

/// A view that remembers the size it was last laid out for.
pub struct SizeCacher<T> {
    inner: T,
    prev_size: Vec2,
}

impl<T> SizeCacher<T> {
    pub closed spec fn spec_inner(&self) -> T {
        self.inner
    }

    pub closed spec fn spec_prev_size(&self) -> Vec2 {
        self.prev_size
    }

    /// Wraps `inner`, not laid out yet.
    pub fn new(inner: T) -> (r: Self)
        ensures
            r.spec_inner() == inner,
            r.spec_prev_size() == (Vec2 { x: 0, y: 0 }),
    {
        SizeCacher { inner, prev_size: Vec2::new(0, 0) }
    }

    /// The size of the last layout.
    pub fn prev_size(&self) -> (r: Vec2)
        ensures
            r == self.spec_prev_size(),
    {
        self.prev_size
    }
}

impl<S, E, T: Widget<S, E>> Widget<S, E> for SizeCacher<T> {
    open spec fn spec_desired_size(&self) -> Vec2 {
        self.spec_inner().spec_desired_size()
    }

    open spec fn can_render(&self, bound: Rect) -> bool {
        self.spec_inner().can_render(bound)
    }

    open spec fn render_ops(&self, bound: Rect) -> Option<Seq<DrawOp>> {
        self.spec_inner().render_ops(bound)
    }

    /// The inner view handles the event; the remembered size stays.
    open spec fn handled(
        &self,
        after: &Self,
        state: S,
        after_state: S,
        event: E,
        r: EventResult,
    ) -> bool {
        &&& self.spec_inner().handled(&after.spec_inner(), state, after_state, event, r)
        &&& after.spec_prev_size() == self.spec_prev_size()
    }

    fn render<B: Backend>(&self, printer: &mut Printer<'_, B>) {
        self.inner.render(printer);
    }

    /// Remembers `size` and lays the inner view out for it.
    fn layout(&mut self, size: Vec2)
        ensures
            final(self).spec_prev_size() == size,
    {
        self.prev_size = size;
        self.inner.layout(size);
    }

    fn desired_size(&self) -> Vec2 {
        self.inner.desired_size()
    }

    fn on_event(&mut self, state: &mut S, event: E) -> (r: EventResult) {
        self.inner.on_event(state, event)
    }
}

/// The size of the last layout in a run of calls on a size cacher, where
/// `Some(size)` stands for `layout(size)` and `None` for any other call
/// (`render`, `desired_size`, `on_event`): zero where there was none.
pub open spec fn last_layout(calls: Seq<Option<Vec2>>) -> Vec2
    decreases calls.len(),
{
    if calls.len() == 0 {
        Vec2 { x: 0, y: 0 }
    } else {
        match calls.last() {
            Some(size) => size,
            None => last_layout(calls.drop_last()),
        }
    }
}

/// A size cacher made by `new` and then taken through a run of calls
/// remembers the size of the last `layout` of the run, or zero where there
/// was none: `layout` stores its size (its contract), and every other call
/// keeps the remembered size (`render` and `desired_size` take the cacher
/// unchanged, and `on_event`'s `handled` keeps it). `states` are the cacher
/// before and after each call.
pub proof fn lemma_prev_size_is_last_layout<T>(states: Seq<SizeCacher<T>>, calls: Seq<Option<Vec2>>)
    requires
        states.len() == calls.len() + 1,
        states[0].spec_prev_size() == (Vec2 { x: 0, y: 0 }),
        forall|i: int|
            0 <= i < calls.len() ==> match #[trigger] calls[i] {
                Some(size) => states[i + 1].spec_prev_size() == size,
                None => states[i + 1].spec_prev_size() == states[i].spec_prev_size(),
            },
    ensures
        states.last().spec_prev_size() == last_layout(calls),
    decreases calls.len(),
{
    if calls.len() > 0 {
        let n = calls.len() - 1;
        assert(forall|i: int|
            0 <= i < calls.drop_last().len() ==> #[trigger] calls.drop_last()[i] == calls[i]);
        assert(states.drop_last().len() == calls.drop_last().len() + 1);
        assert forall|i: int| 0 <= i < calls.drop_last().len() implies match #[trigger] calls.drop_last()[i] {
            Some(size) => states.drop_last()[i + 1].spec_prev_size() == size,
            None => states.drop_last()[i + 1].spec_prev_size() == states.drop_last()[i].spec_prev_size(),
        } by {
            assert(calls.drop_last()[i] == calls[i]);
            match calls[i] {
                Some(size) => {},
                None => {},
            }
        }
        lemma_prev_size_is_last_layout(states.drop_last(), calls.drop_last());
        match calls[n] {
            Some(size) => {},
            None => {},
        }
    }
}

/// What a scroll view's event handling reads and writes of it: the
/// direction, how far it is scrolled, whether its scroll bar is held, and
/// the size of its last layout.
#[derive(Clone, Copy, Debug, PartialEq, Eq, Structural)]
pub struct ScrollState {
    pub orientation: Orientation,
    pub scroll: u16,
    pub clicked: bool,
    pub prev_size: Vec2,
}

/// The length that scrolling runs along: the last layout's height for a
/// vertical view, its width for a horizontal one.
pub open spec fn scroll_limit(s: ScrollState) -> u16 {
    match s.orientation {
        Orientation::Vertical => s.prev_size.y,
        Orientation::Horizontal => s.prev_size.x,
    }
}

/// Scrolling one step further: taken while the next position stays below
/// the limit; tells whether it was taken.
pub open spec fn spec_scroll_up(s: ScrollState) -> (ScrollState, bool) {
    if s.scroll + 1 < scroll_limit(s) {
        (ScrollState { scroll: (s.scroll + 1) as u16, ..s }, true)
    } else {
        (s, false)
    }
}

/// Scrolling one step back, stopping at zero; tells whether the view is
/// still scrolled afterwards.
pub open spec fn spec_scroll_down(s: ScrollState) -> (ScrollState, bool) {
    let n = sat_sub(s.scroll as int, 1) as u16;
    (ScrollState { scroll: n, ..s }, n != 0)
}

/// A press at `pos`: on the scroll bar (the column, or row, just past the
/// last layout) it grabs the bar and scrolls to the pressed place.
pub open spec fn spec_mouse_down(s: ScrollState, pos: Vec2) -> (ScrollState, EventResult) {
    match s.orientation {
        Orientation::Vertical => if pos.x == s.prev_size.x {
            (ScrollState { clicked: true, scroll: pos.y, ..s }, EventResult::Consume(true))
        } else {
            (s, EventResult::Ignored)
        },
        Orientation::Horizontal => if pos.y == s.prev_size.y {
            (ScrollState { clicked: true, scroll: pos.x, ..s }, EventResult::Consume(true))
        } else {
            (s, EventResult::Ignored)
        },
    }
}

/// A drag to `pos`: while the bar is held, it scrolls to the dragged place.
pub open spec fn spec_drag(s: ScrollState, pos: Vec2) -> (ScrollState, EventResult) {
    if s.clicked {
        let scroll = match s.orientation {
            Orientation::Vertical => pos.y,
            Orientation::Horizontal => pos.x,
        };
        (ScrollState { scroll, ..s }, EventResult::Consume(true))
    } else {
        (s, EventResult::Ignored)
    }
}

/// Scrolling by a step either way keeps the position inside the track: a
/// position below the limit stays below it.
pub proof fn lemma_scroll_steps_stay_in_track(s: ScrollState)
    requires
        s.scroll < scroll_limit(s),
    ensures
        spec_scroll_up(s).0.scroll < scroll_limit(spec_scroll_up(s).0),
        spec_scroll_down(s).0.scroll < scroll_limit(spec_scroll_down(s).0),
        spec_scroll_up(s).0.scroll >= s.scroll,
        spec_scroll_down(s).0.scroll <= s.scroll,
{
}

/// A step back undoes a step forward that was taken.
pub proof fn lemma_scroll_down_undoes_up(s: ScrollState)
    requires
        spec_scroll_up(s).1,
    ensures
        spec_scroll_down(spec_scroll_up(s).0).0 == s,
{
}

/// A scroll view lets go of its bar on a left release, and a drag after
/// that does not scroll.
pub proof fn lemma_release_stops_drag<M: MouseEventLike>(s: ScrollState, up: M, pos: Vec2)
    requires
        up.spec_left_up() is Some,
    ensures
        !scroll_mouse_step(s, up).0.clicked,
        spec_drag(scroll_mouse_step(s, up).0, pos) == (
        scroll_mouse_step(s, up).0,
        EventResult::Ignored,
        ),
{
}

/// A result that answers the event when it consumed it.
pub open spec fn answer(r: EventResult) -> Option<EventResult> {
    if r is Consume {
        Some(r)
    } else {
        None
    }
}

/// What a scroll view makes of a mouse event before its inner view sees it.
pub open spec fn scroll_mouse_step<M: MouseEventLike>(s: ScrollState, me: M) -> (ScrollState, Option<EventResult>) {
    if me.spec_left_up() is Some {
        (ScrollState { clicked: false, ..s }, None)
    } else if me.spec_left_down() is Some {
        let (s2, r) = spec_mouse_down(s, me.spec_left_down()->0);
        (s2, answer(r))
    } else if me.spec_drag() is Some {
        let (s2, r) = spec_drag(s, me.spec_drag()->0);
        (s2, answer(r))
    } else if me.spec_scroll_up() is Some {
        let pos = me.spec_scroll_up()->0;
        if (s.orientation == Orientation::Vertical && s.scroll < s.prev_size.x) || (s.orientation
            == Orientation::Horizontal && pos.y == s.prev_size.y) {
            let (s2, b) = spec_scroll_up(s);
            (s2, Some(EventResult::Consume(b)))
        } else {
            (s, None)
        }
    } else if me.spec_scroll_down() is Some {
        let pos = me.spec_scroll_down()->0;
        if (s.orientation == Orientation::Vertical && s.scroll < s.prev_size.x) || (s.orientation
            == Orientation::Horizontal && pos.y == s.prev_size.y) {
            let (s2, b) = spec_scroll_down(s);
            (s2, Some(EventResult::Consume(b)))
        } else {
            (s, None)
        }
    } else {
        (s, None)
    }
}

/// What a scroll view makes of a key event before its inner view sees it:
/// up (or left) scrolls back, down (or right) scrolls further.
pub open spec fn scroll_key_step<K: KeyEventLike>(s: ScrollState, ke: K) -> (ScrollState, Option<EventResult>) {
    if (ke.spec_up() && s.orientation == Orientation::Vertical) || (ke.spec_left()
        && s.orientation == Orientation::Horizontal) {
        let (s2, b) = spec_scroll_down(s);
        (s2, Some(EventResult::Consume(b)))
    } else if (ke.spec_down() && s.orientation == Orientation::Vertical) || (ke.spec_right()
        && s.orientation == Orientation::Horizontal) {
        let (s2, b) = spec_scroll_up(s);
        (s2, Some(EventResult::Consume(b)))
    } else {
        (s, None)
    }
}

/// What a scroll view makes of an event before its inner view sees it: its
/// new state, and `Some` result where it answers the event itself.
pub open spec fn scroll_step<E: EventLike>(s: ScrollState, e: E) -> (ScrollState, Option<EventResult>) {
    match e.spec_mouse() {
        Some(me) => scroll_mouse_step(s, me),
        None => match e.spec_key() {
            Some(ke) => scroll_key_step(s, ke),
            None => (s, None),
        },
    }
}

/// A view that scrolls its inner view along one direction, with a scroll
/// bar on the far edge.
pub struct ScrollView<T> {
    inner: SizeCacher<T>,
    orientation: Orientation,
    scroll: u16,
    clicked: bool,
}

impl<T> ScrollView<T> {
    pub closed spec fn spec_state(&self) -> ScrollState {
        ScrollState {
            orientation: self.orientation,
            scroll: self.scroll,
            clicked: self.clicked,
            prev_size: self.inner.spec_prev_size(),
        }
    }

    pub closed spec fn spec_inner(&self) -> SizeCacher<T> {
        self.inner
    }

    /// Wraps `inner`, not scrolled and not laid out.
    pub fn new(inner: T, orientation: Orientation) -> (r: Self)
        ensures
            r.spec_inner().spec_inner() == inner,
            r.spec_state() == (ScrollState {
                orientation,
                scroll: 0,
                clicked: false,
                prev_size: Vec2 { x: 0, y: 0 },
            }),
    {
        ScrollView { inner: SizeCacher::new(inner), orientation, scroll: 0, clicked: false }
    }

    pub fn down(&mut self) -> (r: bool)
        ensures
            (final(self).spec_state(), r) == spec_scroll_down(old(self).spec_state()),
            final(self).spec_inner() == old(self).spec_inner(),
    {
        self.scroll = self.scroll.saturating_sub(1);
        self.scroll != 0
    }

    pub fn up(&mut self) -> (r: bool)
        ensures
            (final(self).spec_state(), r) == spec_scroll_up(old(self).spec_state()),
            final(self).spec_inner() == old(self).spec_inner(),
    {
        let limit = match self.orientation {
            Orientation::Vertical => self.inner.prev_size().y,
            Orientation::Horizontal => self.inner.prev_size().x,
        };
        if self.scroll < limit && self.scroll + 1 < limit {
            self.scroll = self.scroll + 1;
            true
        } else {
            false
        }
    }

    /// The room the scroll bar takes: one row below a horizontal view, one
    /// column right of a vertical one.
    pub fn additional_size(&self) -> (r: Vec2)
        ensures
            r == bar_size(self.spec_state().orientation),
    {
        match self.orientation {
            Orientation::Horizontal => Vec2::new(0, 1),
            Orientation::Vertical => Vec2::new(1, 0),
        }
    }

    /// The scroll bar's handle: full while held, shaded otherwise.
    pub fn scroll_block_text(&self) -> (r: &'static str)
        ensures
            r@ == (if self.spec_state().clicked { seq!['█'] } else { seq!['░'] }),
    {
        if self.clicked {
            let t = "█";
            proof {
                reveal_strlit("█");
                assert(t@ =~= seq!['█']);
            }
            t
        } else {
            let t = "░";
            proof {
                reveal_strlit("░");
                assert(t@ =~= seq!['░']);
            }
            t
        }
    }

    pub fn event_mouse_down(&mut self, pos: Vec2) -> (r: EventResult)
        ensures
            (final(self).spec_state(), r) == spec_mouse_down(old(self).spec_state(), pos),
            final(self).spec_inner() == old(self).spec_inner(),
    {
        match self.orientation {
            Orientation::Vertical => {
                if pos.x == self.inner.prev_size().x {
                    self.clicked = true;
                    self.scroll = pos.y;
                    EventResult::Consume(true)
                } else {
                    IGNORE
                }
            },
            Orientation::Horizontal => {
                if pos.y == self.inner.prev_size().y {
                    self.clicked = true;
                    self.scroll = pos.x;
                    EventResult::Consume(true)
                } else {
                    IGNORE
                }
            },
        }
    }

    pub fn event_drag(&mut self, pos: Vec2) -> (r: EventResult)
        ensures
            (final(self).spec_state(), r) == spec_drag(old(self).spec_state(), pos),
            final(self).spec_inner() == old(self).spec_inner(),
    {
        if self.clicked {
            self.scroll = match self.orientation {
                Orientation::Vertical => pos.y,
                Orientation::Horizontal => pos.x,
            };
            EventResult::Consume(true)
        } else {
            IGNORE
        }
    }

    /// Handles a mouse event as far as the scroll view answers it.
    fn mouse_step<M: MouseEventLike>(&mut self, me: &M) -> (r: Option<EventResult>)
        ensures
            (final(self).spec_state(), r) == scroll_mouse_step(old(self).spec_state(), *me),
            final(self).spec_inner() == old(self).spec_inner(),
    {
        if me.try_left_up().is_some() {
            self.clicked = false;
            None
        } else if let Some(pos) = me.try_left_down() {
            let r = self.event_mouse_down(pos);
            if r.is_consume() {
                Some(r)
            } else {
                None
            }
        } else if let Some(pos) = me.try_drag() {
            let r = self.event_drag(pos);
            if r.is_consume() {
                Some(r)
            } else {
                None
            }
        } else if let Some(pos) = me.try_scroll_up() {
            let inner_size = self.inner.prev_size();
            if (self.orientation == Orientation::Vertical && self.scroll < inner_size.x) || (
            self.orientation == Orientation::Horizontal && pos.y == inner_size.y) {
                Some(EventResult::Consume(self.up()))
            } else {
                None
            }
        } else if let Some(pos) = me.try_scroll_down() {
            let inner_size = self.inner.prev_size();
            if (self.orientation == Orientation::Vertical && self.scroll < inner_size.x) || (
            self.orientation == Orientation::Horizontal && pos.y == inner_size.y) {
                Some(EventResult::Consume(self.down()))
            } else {
                None
            }
        } else {
            None
        }
    }

    /// Handles a key event as far as the scroll view answers it.
    fn key_step<K: KeyEventLike>(&mut self, ke: &K) -> (r: Option<EventResult>)
        ensures
            (final(self).spec_state(), r) == scroll_key_step(old(self).spec_state(), *ke),
            final(self).spec_inner() == old(self).spec_inner(),
    {
        if (ke.try_up() && self.orientation == Orientation::Vertical) || (ke.try_left()
            && self.orientation == Orientation::Horizontal) {
            Some(EventResult::Consume(self.down()))
        } else if (ke.try_down() && self.orientation == Orientation::Vertical) || (ke.try_right()
            && self.orientation == Orientation::Horizontal) {
            Some(EventResult::Consume(self.up()))
        } else {
            None
        }
    }
}

/// The room the scroll bar takes.
pub open spec fn bar_size(o: Orientation) -> Vec2 {
    match o {
        Orientation::Horizontal => Vec2 { x: 0, y: 1 },
        Orientation::Vertical => Vec2 { x: 1, y: 0 },
    }
}

/// How far a scrolled view's inner view is shifted: the part of `inner`
/// that does not fit into `len` cells, scaled by `scroll` over `len - 1`.
pub open spec fn scroll_shift(inner: u16, len: u16, scroll: u16) -> u16 {
    ((inner - len) * scroll / (len - 1)) as u16
}

/// Whether a scroll view in state `s` over an inner view of `inner` cells,
/// whose own rendering needs `inner_ok` of the bound it gets, can render into
/// `b`. Where the inner view fits along the scroll direction it is rendered
/// as it is; otherwise the bound must leave room for the bar and for a
/// scrolling track of at least two cells, the shift must fit, and so must the
/// cells of the bar.
pub open spec fn scroll_render_ok(
    s: ScrollState,
    inner: Vec2,
    b: Rect,
    inner_ok: spec_fn(Rect) -> bool,
) -> bool {
    let w = b.size.x;
    let h = b.size.y;
    match s.orientation {
        Orientation::Horizontal => if inner.x < w {
            inner_ok(b)
        } else {
            let off = Vec2 { x: scroll_shift(inner.x, w, s.scroll), y: 0 };
            let sub = Rect { start: b.start, size: Vec2 { x: w, y: (h - 1) as u16 } };
            &&& w >= 2
            &&& h >= 1
            &&& (inner.x - w) * s.scroll <= u16::MAX
            &&& add_fits(sub.size, off)
            &&& inner_ok(sliced_bound(sub, off))
            &&& w - 1 <= MAX_HORIZONTAL_LINE
            &&& add_fits(b.start, Vec2 { x: 0, y: (h - 1) as u16 })
            &&& print_fits(b, Vec2 { x: s.scroll, y: (h - 1) as u16 })
        },
        Orientation::Vertical => if inner.y < h {
            inner_ok(b)
        } else {
            let off = Vec2 { x: 0, y: scroll_shift(inner.y, h, s.scroll) };
            let sub = Rect { start: b.start, size: Vec2 { x: (w - 1) as u16, y: h } };
            &&& h >= 2
            &&& w >= 1
            &&& (inner.y - h) * s.scroll <= u16::MAX
            &&& add_fits(sub.size, off)
            &&& inner_ok(sliced_bound(sub, off))
            &&& add_fits(b.start, Vec2 { x: (w - 1) as u16, y: (h - 1) as u16 })
            &&& print_fits(b, Vec2 { x: (w - 1) as u16, y: s.scroll })
        },
    }
}

/// The scroll bar's handle: full while held, shaded otherwise.
pub open spec fn handle_text(clicked: bool) -> Seq<char> {
    if clicked {
        seq!['█']
    } else {
        seq!['░']
    }
}

/// What `print` does with the scroll bar's handle at `pos` of `bound`: one
/// print where `print_clip` keeps some of it, none otherwise.
pub open spec fn handle_ops(bound: Rect, pos: Vec2, clicked: bool) -> Seq<DrawOp> {
    match print_clip(bound, pos, handle_text(clicked)) {
        Some((p, t)) => seq![DrawOp::Print(p, t)],
        None => Seq::empty(),
    }
}

/// What drawing the scroll bar of a view in state `s` along the far edge of
/// `bound` does: the track (a line one cell shorter than the width along
/// the last row of a horizontal view, a full-height column along the last
/// column of a vertical one), then the handle at the scrolled place.
pub open spec fn bar_ops(bound: Rect, s: ScrollState) -> Seq<DrawOp> {
    let w = bound.size.x;
    let h = bound.size.y;
    match s.orientation {
        Orientation::Horizontal => seq![
            DrawOp::Print(vec_add(bound.start, Vec2 { x: 0, y: (h - 1) as u16 }), repeated('─', w - 1)),
        ] + handle_ops(bound, Vec2 { x: s.scroll, y: (h - 1) as u16 }, s.clicked),
        Orientation::Vertical => print_steps(
            column_ops(bound.start, Vec2 { x: (w - 1) as u16, y: 0 }, h as int, '│'),
        ) + handle_ops(bound, Vec2 { x: (w - 1) as u16, y: s.scroll }, s.clicked),
    }
}

/// How far the inner view of a scroll view in state `s`, of `inner` cells,
/// is shifted in `b`: the part of it that does not fit, scaled by the
/// scroll position over the track's length less one.
pub open spec fn scroll_offset(s: ScrollState, inner: Vec2, b: Rect) -> Vec2 {
    match s.orientation {
        Orientation::Horizontal => Vec2 { x: scroll_shift(inner.x, b.size.x, s.scroll), y: 0 },
        Orientation::Vertical => Vec2 { x: 0, y: scroll_shift(inner.y, b.size.y, s.scroll) },
    }
}

/// The bound of a scroll view less the bar's room.
pub open spec fn scroll_sub(s: ScrollState, b: Rect) -> Rect {
    Rect {
        start: b.start,
        size: Vec2 {
            x: (b.size.x - bar_size(s.orientation).x) as u16,
            y: (b.size.y - bar_size(s.orientation).y) as u16,
        },
    }
}

/// Whether the inner view, of `inner` cells, fits into `bound` along the
/// scroll direction, so that it is drawn as it is, with no bar.
pub open spec fn scroll_fits(s: ScrollState, inner: Vec2, bound: Rect) -> bool {
    match s.orientation {
        Orientation::Horizontal => inner.x < bound.size.x,
        Orientation::Vertical => inner.y < bound.size.y,
    }
}

impl<S, E: EventLike, T: Widget<S, E>> Widget<S, E> for ScrollView<T> {
    /// The scroll view answers what `scroll_step` answers, leaving the inner
    /// view and the application state alone; the rest goes to the inner view.
    open spec fn handled(
        &self,
        after: &Self,
        state: S,
        after_state: S,
        event: E,
        r: EventResult,
    ) -> bool {
        &&& after.spec_state() == scroll_step(self.spec_state(), event).0
        &&& match scroll_step(self.spec_state(), event).1 {
            Some(x) => r == x && after.spec_inner() == self.spec_inner() && after_state == state,
            None => self.spec_inner().handled(
                &after.spec_inner(),
                state,
                after_state,
                event,
                r,
            ),
        }
    }

    /// The inner view's desired size, grown by the bar (saturating at the
    /// largest size).
    open spec fn spec_desired_size(&self) -> Vec2 {
        let d = self.spec_inner().spec_desired_size();
        let a = bar_size(self.spec_state().orientation);
        Vec2 {
            x: sat_add(d.x as int, a.x as int) as u16,
            y: sat_add(d.y as int, a.y as int) as u16,
        }
    }

    /// Where the inner view fits, it is drawn into the whole bound, as it
    /// states. Otherwise it is drawn, as it states, into the bound less the
    /// bar's room seen through a slice at `scroll_offset`, and then the bar
    /// is drawn.
    open spec fn render_ops(&self, bound: Rect) -> Option<Seq<DrawOp>> {
        let s = self.spec_state();
        let d = self.spec_inner().spec_desired_size();
        if scroll_fits(s, d, bound) {
            self.spec_inner().render_ops(bound)
        } else {
            let off = scroll_offset(s, d, bound);
            match self.spec_inner().render_ops(sliced_bound(scroll_sub(s, bound), off)) {
                Some(ops) => Some(through_ops(seq![off], ops) + bar_ops(bound, s)),
                None => None,
            }
        }
    }

    open spec fn can_render(&self, bound: Rect) -> bool {
        scroll_render_ok(
            self.spec_state(),
            self.spec_inner().spec_desired_size(),
            bound,
            |r: Rect| self.spec_inner().can_render(r),
        )
    }

    /// Renders the inner view shifted by how far it is scrolled, in the
    /// bound less the bar's room, then the bar and its handle.
    fn render<B: Backend>(&self, printer: &mut Printer<'_, B>)
        ensures
            !scroll_fits(
                self.spec_state(),
                self.spec_inner().spec_desired_size(),
                old(printer).spec_bound(),
            ) ==> exists|mid: B|
                draws(
                    mid,
                    final(printer).spec_backend(),
                    through_ops(old(printer).spec_offsets(), bar_ops(old(printer).spec_bound(), self.spec_state())),
                ),
    {
        let inner_size = self.inner.desired_size();
        let bound = printer.bound();
        let off = match self.orientation {
            Orientation::Horizontal => {
                if inner_size.x >= bound.size.x {
                    let left = inner_size.x - bound.size.x;
                    let prod = left * self.scroll;
                    let d = bound.size.x - 1;
                    proof {
                        assert(prod / d <= prod) by (nonlinear_arith)
                            requires
                                d >= 1,
                                prod >= 0,
                        ;
                    }
                    Vec2::new(prod / d, 0)
                } else {
                    self.inner.render(printer);
                    return ;
                }
            },
            Orientation::Vertical => {
                if inner_size.y >= bound.size.y {
                    let left = inner_size.y - bound.size.y;
                    let prod = left * self.scroll;
                    let d = bound.size.y - 1;
                    proof {
                        assert(prod / d <= prod) by (nonlinear_arith)
                            requires
                                d >= 1,
                                prod >= 0,
                        ;
                    }
                    Vec2::new(0, prod / d)
                } else {
                    self.inner.render(printer);
                    return ;
                }
            },
        };
        let sub = bound.sub_size(self.additional_size());
        let ghost inner_bound = sliced_bound(sub, off);
        let ghost s0 = printer.spec_backend();
        let ghost of = printer.spec_offsets();
        let ghost st = self.spec_state();
        proof {
            assert(off == scroll_offset(st, inner_size, bound));
            assert(sub == scroll_sub(st, bound));
        }
        let inner = &self.inner;
        let render_inner = |q: &mut Printer<'_, B>|
            requires
                old(q).spec_bound() == inner_bound,
                inner.can_render(inner_bound),
            ensures
                final(q).spec_offsets() == old(q).spec_offsets(),
                inner.render_ops(inner_bound) matches Some(ops) ==> draws(
                    old(q).spec_backend(),
                    final(q).spec_backend(),
                    through_ops(old(q).spec_offsets(), ops),
                ),
            {
                inner.render(q);
            };
        let render_sliced = |p: &mut Printer<'_, B>|
            requires
                old(p).spec_bound() == sub,
                add_fits(sub.size, off),
                inner.can_render(inner_bound),
                inner_bound == sliced_bound(sub, off),
            ensures
                final(p).spec_offsets() == old(p).spec_offsets(),
                inner.render_ops(inner_bound) matches Some(ops) ==> draws(
                    old(p).spec_backend(),
                    final(p).spec_backend(),
                    through_ops(old(p).spec_offsets(), through_ops(seq![off], ops)),
                ),
            {
                let ghost p0 = *p;
                p.sliced(off, render_inner);
                proof {
                    let q = choose|q: &mut Printer<'_, B>|
                        {
                            &&& (*q).spec_bound() == sliced_bound(p0.spec_bound(), off)
                            &&& (*q).spec_backend() == p0.spec_backend()
                            &&& (*q).spec_offsets() == p0.spec_offsets().push(off)
                            &&& #[trigger] call_ensures(render_inner, (q,), ())
                            &&& (*final(q)).spec_backend() == p.spec_backend()
                        };
                    if let Some(ops) = inner.render_ops(inner_bound) {
                        lemma_through_push(p0.spec_offsets(), off, ops);
                    }
                }
            };
        printer.with_bound(sub, render_sliced);
        let ghost mid = printer.spec_backend();
        proof {
            let p = choose|p: &mut Printer<'_, B>|
                {
                    &&& (*p).spec_bound() == sub
                    &&& (*p).spec_backend() == s0
                    &&& (*p).spec_offsets() == of
                    &&& #[trigger] call_ensures(render_sliced, (p,), ())
                    &&& (*final(p)).spec_backend() == mid
                    &&& (*final(p)).spec_offsets() == printer.spec_offsets()
                };
        }
        match self.orientation {
            Orientation::Horizontal => {
                let y = bound.size.y - 1;
                printer.print_horizontal_line(y);
                let ghost m = printer.spec_backend();
                printer.print(Vec2::new(self.scroll, y), self.scroll_block_text());
                proof {
                    let line = DrawOp::Print(
                        vec_add(bound.start, Vec2 { x: 0, y: y }),
                        repeated('─', bound.size.x - 1),
                    );
                    lemma_put_draws(
                        of,
                        mid,
                        m,
                        vec_add(bound.start, Vec2 { x: 0, y: y }),
                        repeated('─', bound.size.x - 1),
                    );
                    let hops = handle_ops(bound, Vec2 { x: self.scroll, y: y }, st.clicked);
                    if let Some((p, t)) = print_clip(bound, Vec2 { x: self.scroll, y: y }, handle_text(st.clicked)) {
                        lemma_put_draws(of, m, printer.spec_backend(), p, t);
                        assert(through_ops(of, hops) =~= seq![through_op(of, DrawOp::Print(p, t))]);
                    } else {
                        lemma_draws_none(m);
                        assert(through_ops(of, hops) =~= Seq::<DrawOp>::empty());
                    }
                    lemma_draws_concat(
                        mid,
                        m,
                        printer.spec_backend(),
                        seq![through_op(of, line)],
                        through_ops(of, hops),
                    );
                    lemma_through_concat(of, seq![line], hops);
                    assert(through_ops(of, seq![line]) =~= seq![through_op(of, line)]);
                    assert(bar_ops(bound, st) == seq![line] + hops);
                }
            },
            Orientation::Vertical => {
                let x = bound.size.x - 1;
                proof {
                    assert forall|i: int| 0 <= i < bound.size.y implies {
                        &&& 0 + i <= u16::MAX
                        &&& #[trigger] printer.raw_ok(Vec2 { x: x, y: (0 + i) as u16 })
                    } by {}
                }
                printer.print_vertical_line(x);
                let ghost m = printer.spec_backend();
                printer.print(Vec2::new(x, self.scroll), self.scroll_block_text());
                proof {
                    let cops = column_ops(bound.start, Vec2 { x: x, y: 0 }, bound.size.y as int, '│');
                    lemma_prints_draw(mid, m, of, cops);
                    let hops = handle_ops(bound, Vec2 { x: x, y: self.scroll }, st.clicked);
                    if let Some((p, t)) = print_clip(bound, Vec2 { x: x, y: self.scroll }, handle_text(st.clicked)) {
                        lemma_put_draws(of, m, printer.spec_backend(), p, t);
                        assert(through_ops(of, hops) =~= seq![through_op(of, DrawOp::Print(p, t))]);
                    } else {
                        lemma_draws_none(m);
                        assert(through_ops(of, hops) =~= Seq::<DrawOp>::empty());
                    }
                    lemma_draws_concat(
                        mid,
                        m,
                        printer.spec_backend(),
                        through_ops(of, print_steps(cops)),
                        through_ops(of, hops),
                    );
                    lemma_through_concat(of, print_steps(cops), hops);
                    assert(bar_ops(bound, st) == print_steps(cops) + hops);
                }
            },
        }
        proof {
            let bops = bar_ops(bound, st);
            assert(draws(mid, printer.spec_backend(), through_ops(of, bops)));
            if let Some(ops) = self.spec_inner().render_ops(inner_bound) {
                lemma_draws_concat(
                    s0,
                    mid,
                    printer.spec_backend(),
                    through_ops(of, through_ops(seq![off], ops)),
                    through_ops(of, bops),
                );
                lemma_through_concat(of, through_ops(seq![off], ops), bops);
            }
        }
    }

    /// Lays the inner view out for `size` less the bar's room.
    fn layout(&mut self, size: Vec2)
        ensures
            final(self).spec_state() == (ScrollState {
                prev_size: Vec2 {
                    x: sat_sub(size.x as int, bar_size(old(self).spec_state().orientation).x as int) as u16,
                    y: sat_sub(size.y as int, bar_size(old(self).spec_state().orientation).y as int) as u16,
                },
                ..old(self).spec_state()
            }),
    {
        let a = self.additional_size();
        self.inner.layout(size.saturating_sub(a));
    }

    fn desired_size(&self) -> (r: Vec2) {
        let a = self.additional_size();
        self.inner.desired_size().saturating_add(a)
    }

    /// Handles `event` as `scroll_step` says; what the scroll view does not
    /// answer goes to the inner view.
    fn on_event(&mut self, state: &mut S, event: E) -> (r: EventResult)
        ensures
            final(self).spec_state() == scroll_step(old(self).spec_state(), event).0,
            scroll_step(old(self).spec_state(), event).1 matches Some(x) ==> r == x
                && final(self).spec_inner() == old(self).spec_inner(),
    {
        let answered = match event.try_mouse() {
            Some(me) => self.mouse_step(me),
            None => match event.try_key() {
                Some(ke) => self.key_step(ke),
                None => None,
            },
        };
        match answered {
            Some(r) => r,
            None => self.inner.on_event(state, event),
        }
    }
}


/// While its bar is held, dragging a vertical scroll view scrolls it to the
/// dragged row and a horizontal one to the dragged column, answering that
/// the event was taken and a redraw is due; nothing else of the state
/// changes. A drag while the bar is not held is ignored and changes
/// nothing.
pub proof fn lemma_drag_follows_pointer(s: ScrollState, pos: Vec2)
    ensures
        s.clicked && s.orientation == Orientation::Vertical ==> spec_drag(s, pos).0.scroll == pos.y,
        s.clicked && s.orientation == Orientation::Horizontal ==> spec_drag(s, pos).0.scroll
            == pos.x,
        s.clicked ==> spec_drag(s, pos).1 == EventResult::Consume(true),
        spec_drag(s, pos).0.orientation == s.orientation,
        spec_drag(s, pos).0.clicked == s.clicked,
        spec_drag(s, pos).0.prev_size == s.prev_size,
        !s.clicked ==> spec_drag(s, pos) == (s, EventResult::Ignored),
{
}

/// A press on the bar followed by a drag leaves the view scrolled to where
/// the drag went: the row for a vertical view, the column for a horizontal
/// one.
pub proof fn lemma_press_then_drag(s: ScrollState, press: Vec2, to: Vec2)
    requires
        s.orientation == Orientation::Vertical ==> press.x == s.prev_size.x,
        s.orientation == Orientation::Horizontal ==> press.y == s.prev_size.y,
    ensures
        spec_drag(spec_mouse_down(s, press).0, to).0.scroll == match s.orientation {
            Orientation::Vertical => to.y,
            Orientation::Horizontal => to.x,
        },
{
}

} // verus!
