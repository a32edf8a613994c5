//! Where printed text goes: a terminal, a buffer for tests, or nowhere.

use vstd::prelude::*;
use crate::style::{AnsiStyle, plain_style};
use crate::util::{lemma_fit_bounds, lemma_fit_cols, cols, spec_fit, unicode_str_width, str_width, slice_str_with_width, char_cols};
use crate::vec2::{Vec2, sat_add};

verus! {

broadcast use vstd::string::group_string_axioms;

/// A screen that text can be printed on.
pub trait Backend {
    /// The size `size` gives; a backend whose size matters to a proof
    /// states it.
    open spec fn screen_size(&self) -> Vec2 {
        arbitrary()
    }

    /// The style `style` gives; a backend whose style matters to a proof
    /// states it.
    open spec fn current_style(&self) -> AnsiStyle {
        arbitrary()
    }

    /// Whether `after` is this backend once `text` is printed at `pos`; a
    /// backend whose printing matters to a proof states it.
    open spec fn printed(&self, after: &Self, pos: Vec2, text: Seq<char>) -> bool {
        true
    }

    /// Whether `after` is this backend once `style` is set.
    open spec fn styled(&self, after: &Self, style: AnsiStyle) -> bool {
        true
    }

    /// Whether `after` is this backend once cleared.
    open spec fn cleared(&self, after: &Self) -> bool {
        true
    }

    /// Whether `after` is this backend once flushed.
    open spec fn flushed(&self, after: &Self) -> bool {
        true
    }

    fn clear(&mut self)
        ensures
            old(self).cleared(final(self)),
    ;

    fn size(&self) -> (r: Vec2)
        ensures
            r == self.screen_size(),
    ;

    fn set_style(&mut self, style: AnsiStyle)
        ensures
            old(self).styled(final(self), style),
    ;

    fn style(&self) -> (r: AnsiStyle)
        ensures
            r == self.current_style(),
    ;

    /// Prints `text` with its first column at `pos`.
    fn print_at(&mut self, pos: Vec2, text: &str)
        ensures
            old(self).printed(final(self), pos, text@),
    ;

    fn flush(&mut self)
        ensures
            old(self).flushed(final(self)),
    ;
}

/// A backend borrowed mutably is a backend: every call goes to it.
impl<'a, B: Backend> Backend for &'a mut B {
    open spec fn screen_size(&self) -> Vec2 {
        (**self).screen_size()
    }

    open spec fn current_style(&self) -> AnsiStyle {
        (**self).current_style()
    }

    open spec fn printed(&self, after: &Self, pos: Vec2, text: Seq<char>) -> bool {
        (**self).printed(&**after, pos, text)
    }

    open spec fn styled(&self, after: &Self, style: AnsiStyle) -> bool {
        (**self).styled(&**after, style)
    }

    open spec fn cleared(&self, after: &Self) -> bool {
        (**self).cleared(&**after)
    }

    open spec fn flushed(&self, after: &Self) -> bool {
        (**self).flushed(&**after)
    }

    fn clear(&mut self) {
        (**self).clear();
    }

    fn size(&self) -> Vec2 {
        (**self).size()
    }

    fn set_style(&mut self, style: AnsiStyle) {
        (**self).set_style(style);
    }

    fn style(&self) -> AnsiStyle {
        (**self).style()
    }

    fn print_at(&mut self, pos: Vec2, text: &str) {
        (**self).print_at(pos, text);
    }

    fn flush(&mut self) {
        (**self).flush();
    }
}

/// Where text printed at `pos` through slices at `offsets` (the last one
/// nearest to the text) lands on the backend, and what of it is left: each
/// slice moves it as `sliced_target` says; `None` once a slice drops it.
pub open spec fn through(offsets: Seq<Vec2>, pos: Vec2, text: Seq<char>) -> Option<(Vec2, Seq<char>)>
    decreases offsets.len(),
{
    if offsets.len() == 0 {
        Some((pos, text))
    } else {
        match sliced_target(offsets.last(), pos, text) {
            Some((q, u)) => through(offsets.drop_last(), q, u),
            None => None,
        }
    }
}

/// Whether printing `text` at `pos` through slices at `offsets` takes
/// backend `a` to `b`: what is left of it is printed where it lands, or
/// nothing changes where nothing is left.
pub open spec fn put<B: Backend>(offsets: Seq<Vec2>, a: B, b: B, pos: Vec2, text: Seq<char>) -> bool {
    match through(offsets, pos, text) {
        Some((q, u)) => a.printed(&b, q, u),
        None => b == a,
    }
}

/// Whether `states` are the backends one after another while `ops`, a
/// text at a position each, are printed in turn through slices at
/// `offsets`: each print takes a state to the next.
pub open spec fn print_chain<B: Backend>(
    states: Seq<B>,
    offsets: Seq<Vec2>,
    ops: Seq<(Vec2, Seq<char>)>,
) -> bool {
    &&& states.len() == ops.len() + 1
    &&& forall|i: int|
        0 <= i < ops.len() ==> #[trigger] put(offsets, states[i], states[i + 1], ops[i].0, ops[i].1)
}

/// Whether printing each of `ops` in turn through slices at `offsets` takes
/// backend `a` to backend `b`.
pub open spec fn prints_all<B: Backend>(a: B, b: B, offsets: Seq<Vec2>, ops: Seq<(Vec2, Seq<char>)>) -> bool {
    exists|states: Seq<B>|
        #[trigger] print_chain(states, offsets, ops) && states[0] == a && states.last() == b
}

/// No print leaves the backend as it is.
pub proof fn lemma_prints_none<B: Backend>(a: B, offsets: Seq<Vec2>)
    ensures
        prints_all(a, a, offsets, Seq::<(Vec2, Seq<char>)>::empty()),
{
    let st = seq![a];
    assert(print_chain(st, offsets, Seq::<(Vec2, Seq<char>)>::empty()));
}

/// One more print after a run of prints is a run of prints.
pub proof fn lemma_prints_push<B: Backend>(
    a: B,
    m: B,
    b: B,
    offsets: Seq<Vec2>,
    ops: Seq<(Vec2, Seq<char>)>,
    pos: Vec2,
    text: Seq<char>,
)
    requires
        prints_all(a, m, offsets, ops),
        put(offsets, m, b, pos, text),
    ensures
        prints_all(a, b, offsets, ops.push((pos, text))),
{
    let st = choose|st: Seq<B>| #[trigger] print_chain(st, offsets, ops) && st[0] == a && st.last() == m;
    let st2 = st.push(b);
    let ops2 = ops.push((pos, text));
    assert forall|i: int| 0 <= i < ops2.len() implies #[trigger] put(
        offsets,
        st2[i],
        st2[i + 1],
        ops2[i].0,
        ops2[i].1,
    ) by {
        if i < ops.len() {
            assert(put(offsets, st[i], st[i + 1], ops[i].0, ops[i].1));
        }
    }
    assert(print_chain(st2, offsets, ops2));
}

/// A single print is a run of one print.
pub proof fn lemma_prints_one<B: Backend>(a: B, b: B, offsets: Seq<Vec2>, pos: Vec2, text: Seq<char>)
    requires
        put(offsets, a, b, pos, text),
    ensures
        prints_all(a, b, offsets, seq![(pos, text)]),
{
    lemma_prints_none(a, offsets);
    lemma_prints_push(a, a, b, offsets, Seq::<(Vec2, Seq<char>)>::empty(), pos, text);
    assert(Seq::<(Vec2, Seq<char>)>::empty().push((pos, text)) =~= seq![(pos, text)]);
}

/// Two runs of prints, one after the other, are the run of both.
pub proof fn lemma_prints_concat<B: Backend>(
    a: B,
    m: B,
    b: B,
    offsets: Seq<Vec2>,
    xs: Seq<(Vec2, Seq<char>)>,
    ys: Seq<(Vec2, Seq<char>)>,
)
    requires
        prints_all(a, m, offsets, xs),
        prints_all(m, b, offsets, ys),
    ensures
        prints_all(a, b, offsets, xs + ys),
{
    let s1 = choose|st: Seq<B>| #[trigger] print_chain(st, offsets, xs) && st[0] == a && st.last() == m;
    let s2 = choose|st: Seq<B>| #[trigger] print_chain(st, offsets, ys) && st[0] == m && st.last() == b;
    let st = s1 + s2.skip(1);
    let ops = xs + ys;
    assert forall|i: int| 0 <= i < ops.len() implies #[trigger] put(
        offsets,
        st[i],
        st[i + 1],
        ops[i].0,
        ops[i].1,
    ) by {
        if i < xs.len() {
            assert(put(offsets, s1[i], s1[i + 1], xs[i].0, xs[i].1));
            if i + 1 == xs.len() {
                assert(st[i + 1] == s2[0]);
            }
        } else {
            let j = i - xs.len();
            assert(put(offsets, s2[j], s2[j + 1], ys[j].0, ys[j].1));
            if j == 0 {
                assert(st[i] == s1.last());
            }
        }
    }
    assert(print_chain(st, offsets, ops));
}

/// Whether setting on a backend of type `B` a style that some such backend
/// shows makes it show that style, so that putting back the style a backend
/// had restores it.
pub open spec fn restores_style<B: Backend>() -> bool {
    forall|a: B, b: B, c: B|
        #[trigger] a.styled(&b, c.current_style()) ==> b.current_style() == c.current_style()
}

/// A test backend shows the style last set.
pub proof fn lemma_test_backend_restores_style<I>()
    ensures
        restores_style::<TestBackend<I>>(),
{
}

/// A dummy backend always shows the plain style.
pub proof fn lemma_dummy_backend_restores_style()
    ensures
        restores_style::<DummyBackend>(),
{
}

/// A backend borrowed mutably, or seen through a slice, restores a style
/// where the backend below does.
pub proof fn lemma_wrapped_backends_restore_style<'a, B: Backend>()
    requires
        restores_style::<B>(),
    ensures
        restores_style::<&'a mut B>(),
        restores_style::<SlicedBackend<'a, B>>(),
{
    assert forall|a: &'a mut B, b: &'a mut B, c: &'a mut B|
        #[trigger] a.styled(&b, c.current_style()) implies b.current_style()
        == c.current_style() by {
        assert((*a).styled(&*b, (*c).current_style()));
    }
    assert forall|a: SlicedBackend<'a, B>, b: SlicedBackend<'a, B>, c: SlicedBackend<'a, B>|
        #[trigger] a.styled(&b, c.current_style()) implies b.current_style()
        == c.current_style() by {
        assert((*a.spec_backend()).styled(
            &*b.spec_backend(),
            (*c.spec_backend()).current_style(),
        ));
    }
}

/// One thing done to a backend while drawing: printing a text at a
/// position, setting a style, setting again the style that the backend
/// showed a number of steps before, or nothing (a print that a slice
/// dropped).
pub enum DrawOp {
    Print(Vec2, Seq<char>),
    Style(AnsiStyle),
    Restore(nat),
    Keep,
}

/// Whether step `i` of `ops` takes `states[i]` to `states[i + 1]`.
pub open spec fn draw_step<B: Backend>(states: Seq<B>, ops: Seq<DrawOp>, i: int) -> bool {
    match ops[i] {
        DrawOp::Print(p, t) => states[i].printed(&states[i + 1], p, t),
        DrawOp::Style(style) => states[i].styled(&states[i + 1], style),
        DrawOp::Restore(d) => d <= i && states[i].styled(
            &states[i + 1],
            states[i - d].current_style(),
        ),
        DrawOp::Keep => states[i + 1] == states[i],
    }
}

/// A drawing step done through slices at `offsets`: a print lands where
/// `through` sends it, or is dropped; the other steps are as they are.
pub open spec fn through_op(offsets: Seq<Vec2>, op: DrawOp) -> DrawOp {
    match op {
        DrawOp::Print(p, t) => match through(offsets, p, t) {
            Some((q, u)) => DrawOp::Print(q, u),
            None => DrawOp::Keep,
        },
        _ => op,
    }
}

/// Drawing steps done through slices at `offsets`.
pub open spec fn through_ops(offsets: Seq<Vec2>, ops: Seq<DrawOp>) -> Seq<DrawOp> {
    ops.map_values(|o: DrawOp| through_op(offsets, o))
}

/// Going through slices maps each step on its own.
pub proof fn lemma_through_push_op(offsets: Seq<Vec2>, ops: Seq<DrawOp>, op: DrawOp)
    ensures
        through_ops(offsets, ops.push(op)) == through_ops(offsets, ops).push(through_op(offsets, op)),
{
    assert(through_ops(offsets, ops.push(op)) =~= through_ops(offsets, ops).push(through_op(offsets, op)));
}

/// Going through slices maps two runs of steps one after the other.
pub proof fn lemma_through_concat(offsets: Seq<Vec2>, xs: Seq<DrawOp>, ys: Seq<DrawOp>)
    ensures
        through_ops(offsets, xs + ys) == through_ops(offsets, xs) + through_ops(offsets, ys),
{
    assert(through_ops(offsets, xs + ys) =~= through_ops(offsets, xs) + through_ops(offsets, ys));
}

/// Two drawings, the second starting where the first ends, are the drawing
/// of both.
pub proof fn lemma_draws_concat<B: Backend>(a: B, m: B, b: B, xs: Seq<DrawOp>, ys: Seq<DrawOp>)
    requires
        draws(a, m, xs),
        draws(m, b, ys),
    ensures
        draws(a, b, xs + ys),
{
    let s1 = choose|st: Seq<B>| #[trigger] draw_chain(st, xs) && st[0] == a && st.last() == m;
    let s2 = choose|st: Seq<B>| #[trigger] draw_chain(st, ys) && st[0] == m && st.last() == b;
    lemma_draw_chain_concat(s1, xs, s2, ys);
    assert(draw_chain(s1 + s2.skip(1), xs + ys));
}

/// A print through slices is a drawing of one step.
pub proof fn lemma_put_draws<B: Backend>(offsets: Seq<Vec2>, a: B, b: B, pos: Vec2, text: Seq<char>)
    requires
        put(offsets, a, b, pos, text),
    ensures
        draws(a, b, seq![through_op(offsets, DrawOp::Print(pos, text))]),
{
    let st = seq![a, b];
    let ops = seq![through_op(offsets, DrawOp::Print(pos, text))];
    assert(draw_step(st, ops, 0));
    assert(draw_chain(st, ops));
}

/// Doing nothing is a drawing of no steps.
pub proof fn lemma_draws_none<B: Backend>(a: B)
    ensures
        draws(a, a, Seq::<DrawOp>::empty()),
{
    assert(draw_chain(seq![a], Seq::<DrawOp>::empty()));
}

/// Going through one more slice is going through it first, then through
/// the others.
pub proof fn lemma_through_push(offsets: Seq<Vec2>, o: Vec2, ops: Seq<DrawOp>)
    ensures
        through_ops(offsets.push(o), ops) == through_ops(offsets, through_ops(seq![o], ops)),
{
    assert(offsets.push(o).drop_last() =~= offsets);
    assert(seq![o].drop_last() =~= Seq::<Vec2>::empty());
    assert forall|i: int| 0 <= i < ops.len() implies #[trigger] through_ops(offsets.push(o), ops)[i]
        == through_ops(offsets, through_ops(seq![o], ops))[i] by {
        if let DrawOp::Print(p, t) = ops[i] {
            assert(seq![o].last() == o);
            assert(offsets.push(o).last() == o);
            match sliced_target(o, p, t) {
                Some((q, u)) => {
                    assert(through(Seq::<Vec2>::empty(), q, u) == Some((q, u)));
                    assert(through(seq![o], p, t) == Some((q, u)));
                    assert(through(offsets.push(o), p, t) == through(offsets, q, u));
                },
                None => {
                    assert(through(seq![o], p, t) is None);
                    assert(through(offsets.push(o), p, t) is None);
                },
            }
        }
    }
    assert(through_ops(offsets.push(o), ops) =~= through_ops(offsets, through_ops(seq![o], ops)));
}

/// Whether `states` are the backends one after another while `ops` are
/// done in turn.
pub open spec fn draw_chain<B: Backend>(states: Seq<B>, ops: Seq<DrawOp>) -> bool {
    &&& states.len() == ops.len() + 1
    &&& forall|i: int| 0 <= i < ops.len() ==> #[trigger] draw_step(states, ops, i)
}

/// Whether doing `ops` in turn takes backend `a` to backend `b`.
pub open spec fn draws<B: Backend>(a: B, b: B, ops: Seq<DrawOp>) -> bool {
    exists|states: Seq<B>| #[trigger] draw_chain(states, ops) && states[0] == a && states.last() == b
}

/// The prints of `ops` as drawing steps.
pub open spec fn print_steps(ops: Seq<(Vec2, Seq<char>)>) -> Seq<DrawOp> {
    ops.map_values(|o: (Vec2, Seq<char>)| DrawOp::Print(o.0, o.1))
}

/// A chain of one more step.
pub proof fn lemma_draw_chain_push<B: Backend>(states: Seq<B>, ops: Seq<DrawOp>, next: B, op: DrawOp)
    requires
        draw_chain(states, ops),
        draw_step(states.push(next), ops.push(op), ops.len() as int),
    ensures
        draw_chain(states.push(next), ops.push(op)),
{
    let s2 = states.push(next);
    let o2 = ops.push(op);
    assert forall|i: int| 0 <= i < o2.len() implies #[trigger] draw_step(s2, o2, i) by {
        if i < ops.len() {
            assert(draw_step(states, ops, i));
            assert(s2[i] == states[i] && s2[i + 1] == states[i + 1] && o2[i] == ops[i]);
            if let DrawOp::Restore(d) = ops[i] {
                if d <= i {
                    assert(s2[i - d] == states[i - d]);
                }
            }
        }
    }
}

/// Two chains, the second starting where the first ends, make one chain.
pub proof fn lemma_draw_chain_concat<B: Backend>(
    s1: Seq<B>,
    xs: Seq<DrawOp>,
    s2: Seq<B>,
    ys: Seq<DrawOp>,
)
    requires
        draw_chain(s1, xs),
        draw_chain(s2, ys),
        s1.last() == s2[0],
    ensures
        draw_chain(s1 + s2.skip(1), xs + ys),
        (s1 + s2.skip(1))[0] == s1[0],
        (s1 + s2.skip(1)).last() == s2.last(),
{
    let st = s1 + s2.skip(1);
    let ops = xs + ys;
    let n = xs.len() as int;
    assert forall|j: int| 0 <= j <= ys.len() implies st[n + j] == s2[j] by {
        if j == 0 {
            assert(st[n] == s1[n]);
        }
    }
    assert forall|i: int| 0 <= i < ops.len() implies #[trigger] draw_step(st, ops, i) by {
        if i < n {
            assert(draw_step(s1, xs, i));
            assert(st[i] == s1[i] && st[i + 1] == s1[i + 1] && ops[i] == xs[i]);
            if let DrawOp::Restore(d) = xs[i] {
                if d <= i {
                    assert(st[i - d] == s1[i - d]);
                }
            }
        } else {
            let j = i - n;
            assert(draw_step(s2, ys, j));
            assert(st[i] == s2[j] && st[i + 1] == s2[j + 1] && ops[i] == ys[j]);
            if let DrawOp::Restore(d) = ys[j] {
                if d <= j {
                    assert(st[i - d] == s2[j - d]);
                }
            }
        }
    }
    assert(st.last() == st[n + ys.len()]);
}

/// A run of prints through slices is a chain of print steps through them.
pub proof fn lemma_prints_draw<B: Backend>(a: B, b: B, offsets: Seq<Vec2>, ops: Seq<(Vec2, Seq<char>)>)
    requires
        prints_all(a, b, offsets, ops),
    ensures
        draws(a, b, through_ops(offsets, print_steps(ops))),
{
    let st = choose|st: Seq<B>| #[trigger] print_chain(st, offsets, ops) && st[0] == a && st.last() == b;
    let ds = through_ops(offsets, print_steps(ops));
    assert forall|i: int| 0 <= i < ds.len() implies #[trigger] draw_step(st, ds, i) by {
        assert(put(offsets, st[i], st[i + 1], ops[i].0, ops[i].1));
    }
    assert(draw_chain(st, ds));
}

/// A backend that shows nothing and measures nothing.
#[derive(Clone, Copy, Debug, PartialEq, Eq, Structural)]
pub struct DummyBackend;

impl Default for DummyBackend {
    fn default() -> (r: Self)
        ensures
            r == DummyBackend,
    {
        DummyBackend
    }
}

impl Backend for DummyBackend {
    open spec fn screen_size(&self) -> Vec2 {
        Vec2 { x: 0, y: 0 }
    }

    open spec fn current_style(&self) -> AnsiStyle {
        plain_style()
    }

    /// Printing leaves it as it is.
    open spec fn printed(&self, after: &Self, pos: Vec2, text: Seq<char>) -> bool {
        *after == *self
    }

    open spec fn styled(&self, after: &Self, style: AnsiStyle) -> bool {
        *after == *self
    }

    open spec fn cleared(&self, after: &Self) -> bool {
        *after == *self
    }

    open spec fn flushed(&self, after: &Self) -> bool {
        *after == *self
    }

    fn clear(&mut self) {
    }

    fn size(&self) -> (r: Vec2)
        ensures
            r == (Vec2 { x: 0, y: 0 }),
    {
        Vec2::new(0, 0)
    }

    fn print_at(&mut self, pos: Vec2, text: &str) {
    }

    fn flush(&mut self) {
    }

    fn set_style(&mut self, style: AnsiStyle) {
    }

    fn style(&self) -> (r: AnsiStyle)
        ensures
            r == plain_style(),
    {
        AnsiStyle::new()
    }
}

/// `n` spaces.
pub open spec fn spaces(n: int) -> Seq<char> {
    Seq::new(n as nat, |i: int| ' ')
}

/// The column where text of `width` columns printed at column `x` ends,
/// held to the largest `usize`.
pub open spec fn print_end(x: int, width: int) -> int {
    if x + width <= usize::MAX { x + width } else { usize::MAX as int }
}

/// A line after printing `text` at column `x`: the characters that fit
/// before `x` stay, the columns of a wide character that `x` cuts into
/// become spaces, then comes `text`, then what followed the columns it covers.
/// Where `x` cuts into a character (or lies past the line's end) and `text`
/// covers no column past that character's start, the line stays as it was.
pub open spec fn spec_print_line(line: Seq<char>, x: int, text: Seq<char>) -> Seq<char> {
    let (sc, sl) = spec_fit(line, x);
    let (ec, _) = spec_fit(line, print_end(x, unicode_str_width(text) as int));
    if sl > 0 && ec <= sc {
        line
    } else {
        line.take(sc) + spaces(sl) + text + line.skip(ec)
    }
}

/// Printing `text` at column `x` of `line` (where it is not left alone)
/// keeps the characters before column `x`, fills the rest of the columns up
/// to `x` with spaces, puts `text` there to be read back, and keeps what
/// follows the columns the text covers.
pub proof fn lemma_print_places_text(line: Seq<char>, x: int, text: Seq<char>)
    requires
        x >= 0,
        !(spec_fit(line, x).1 > 0 && spec_fit(
            line,
            print_end(x, unicode_str_width(text) as int),
        ).0 <= spec_fit(line, x).0),
    ensures
        ({
            let (sc, sl) = spec_fit(line, x);
            let (ec, _) = spec_fit(line, print_end(x, unicode_str_width(text) as int));
            let out = spec_print_line(line, x, text);
            &&& out.take(sc) == line.take(sc)
            &&& out.subrange(sc, sc + sl) == spaces(sl)
            &&& out.subrange(sc + sl, sc + sl + text.len()) == text
            &&& out.skip(sc + sl + text.len()) == line.skip(ec)
            &&& cols(line.take(sc)) + sl == x
        }),
{
    let (sc, sl) = spec_fit(line, x);
    let e = print_end(x, unicode_str_width(text) as int);
    lemma_fit_bounds(line, x);
    lemma_fit_bounds(line, e);
    lemma_fit_cols(line, x);
    let out = spec_print_line(line, x, text);
    let (ec, _) = spec_fit(line, e);
    assert(out == line.take(sc) + spaces(sl) + text + line.skip(ec));
    assert(out.take(sc) =~= line.take(sc));
    assert(out.subrange(sc, sc + sl) =~= spaces(sl));
    assert(out.subrange(sc + sl, sc + sl + text.len()) =~= text);
    assert(out.skip(sc + sl + text.len()) =~= line.skip(ec));
}

/// The characters of each line.
pub open spec fn lines_view(v: Seq<String>) -> Seq<Seq<char>> {
    v.map_values(|l: String| l@)
}

/// A backend that keeps the screen as lines of text, for tests.
pub struct TestBackend<I> {
    lines: Vec<String>,
    style: AnsiStyle,
    size: Vec2,
    events: I,
}

impl<I> TestBackend<I> {
    /// The lines of the screen, as characters.
    pub closed spec fn spec_lines(&self) -> Seq<Seq<char>> {
        lines_view(self.lines@)
    }

    pub closed spec fn spec_size(&self) -> Vec2 {
        self.size
    }

    pub closed spec fn spec_style(&self) -> AnsiStyle {
        self.style
    }

    pub closed spec fn spec_events(&self) -> I {
        self.events
    }

    fn blank_line(width: u16) -> (r: String)
        ensures
            r@ == spaces(width as int),
    {
        let mut line = String::new();
        let mut i: u16 = 0;
        while i < width
            invariant
                i <= width,
                line@ == spaces(i as int),
            decreases width - i,
        {
            line.append(" ");
            proof {
                reveal_strlit(" ");
                assert(line@ =~= spaces(i + 1));
            }
            i = i + 1;
        }
        line
    }

    /// A blank screen of `size` columns and rows.
    pub fn new(size: Vec2, events: I) -> (r: Self)
        ensures
            r.spec_size() == size,
            r.spec_style() == plain_style(),
            r.spec_lines() == Seq::new(size.y as nat, |i: int| spaces(size.x as int)),
    {
        let mut lines: Vec<String> = Vec::new();
        let mut j: u16 = 0;
        while j < size.y
            invariant
                j <= size.y,
                lines@.len() == j,
                lines_view(lines@) == Seq::new(j as nat, |i: int| spaces(size.x as int)),
            decreases size.y - j,
        {
            let line = Self::blank_line(size.x);
            let ghost prev = lines@;
            lines.push(line);
            proof {
                assert(lines_view(lines@) =~= lines_view(prev).push(line@));
                assert(lines_view(lines@) =~= Seq::new(
                    (j + 1) as nat,
                    |i: int| spaces(size.x as int),
                ));
            }
            j = j + 1;
        }
        TestBackend { lines, style: AnsiStyle::new(), size, events }
    }

    pub fn lines(&self) -> (r: &[String])
        ensures
            lines_view(r@) == self.spec_lines(),
    {
        self.lines.as_slice()
    }
}

proof fn lemma_fit_nonneg(s: Seq<char>, w: int)
    ensures
        spec_fit(s, w).0 >= 0,
    decreases s.len(),
{
    if s.len() > 0 && char_cols(s[0]) <= w {
        lemma_fit_nonneg(s.drop_first(), w - char_cols(s[0]));
    }
}

proof fn lemma_fit_monotone(s: Seq<char>, a: int, b: int)
    requires
        0 <= a <= b,
    ensures
        spec_fit(s, a).0 <= spec_fit(s, b).0,
    decreases s.len(),
{
    if s.len() > 0 && char_cols(s[0]) <= a {
        let c = char_cols(s[0]);
        assert(c >= 0);
        lemma_fit_monotone(s.drop_first(), a - c, b - c);
        assert(spec_fit(s, a).0 == spec_fit(s.drop_first(), a - c).0 + 1);
        assert(spec_fit(s, b).0 == spec_fit(s.drop_first(), b - c).0 + 1);
    } else if s.len() > 0 {
        assert(spec_fit(s, a).0 == 0);
        lemma_fit_nonneg(s, b);
    }
}

impl<I> TestBackend<I> {
    /// Prints `text` on line `pos.y` at column `pos.x`.
    fn print_line(&mut self, pos: Vec2, text: &str)
        requires
            (pos.y as int) < old(self).spec_lines().len(),
        ensures
            final(self).spec_lines() == old(self).spec_lines().update(
                pos.y as int,
                spec_print_line(old(self).spec_lines()[pos.y as int], pos.x as int, text@),
            ),
            final(self).spec_size() == old(self).spec_size(),
            final(self).spec_style() == old(self).spec_style(),
            final(self).spec_events() == old(self).spec_events(),
    {
        let y = pos.y as usize;
        let line: &str = self.lines[y].as_str();
        let ghost l = line@;
        let width = str_width(text);
        let x = pos.x as usize;
        let end = if width <= usize::MAX - x { x + width } else { usize::MAX };
        let (head, _, start_left) = slice_str_with_width(line, x);
        let (_, rest, _) = slice_str_with_width(line, end);
        let ghost sc = spec_fit(l, x as int).0;
        let ghost ec = spec_fit(l, end as int).0;
        proof {
            lemma_fit_monotone(l, x as int, end as int);
            lemma_fit_bounds(l, end as int);
            lemma_fit_bounds(l, x as int);
        }
        let head_len = head.unicode_len();
        let rest_len = rest.unicode_len();
        let line_len = line.unicode_len();
        if start_left > 0 && line_len - rest_len <= head_len {
            proof {
                assert(ec <= sc);
                assert(self.spec_lines().update(y as int, l) =~= self.spec_lines());
            }
            return;
        }
        let mut new_line = String::from_str(head);
        let mut k: usize = 0;
        while k < start_left
            invariant
                k <= start_left,
                new_line@ == l.take(sc) + spaces(k as int),
            decreases start_left - k,
        {
            new_line.append(" ");
            proof {
                reveal_strlit(" ");
                assert(new_line@ =~= l.take(sc) + spaces(k + 1));
            }
            k = k + 1;
        }
        new_line.append(text);
        new_line.append(rest);
        proof {
            assert(new_line@ =~= spec_print_line(l, x as int, text@));
        }
        let ghost old_lines = self.lines@;
        self.lines.set(y, new_line);
        proof {
            assert(lines_view(self.lines@) =~= lines_view(old_lines).update(
                y as int,
                spec_print_line(l, x as int, text@),
            ));
        }
    }
}

impl<I> Backend for TestBackend<I> {
    open spec fn screen_size(&self) -> Vec2 {
        self.spec_size()
    }

    open spec fn current_style(&self) -> AnsiStyle {
        self.spec_style()
    }

    /// The row `pos.y`, where there is one, becomes `spec_print_line` of it;
    /// the rest stays.
    open spec fn printed(&self, after: &Self, pos: Vec2, text: Seq<char>) -> bool {
        &&& after.spec_lines() == if (pos.y as int) < self.spec_lines().len() {
            self.spec_lines().update(
                pos.y as int,
                spec_print_line(self.spec_lines()[pos.y as int], pos.x as int, text),
            )
        } else {
            self.spec_lines()
        }
        &&& after.spec_size() == self.spec_size()
        &&& after.spec_style() == self.spec_style()
        &&& after.spec_events() == self.spec_events()
    }

    /// The style becomes `style`; the rest stays.
    open spec fn styled(&self, after: &Self, style: AnsiStyle) -> bool {
        &&& after.spec_style() == style
        &&& after.spec_lines() == self.spec_lines()
        &&& after.spec_size() == self.spec_size()
        &&& after.spec_events() == self.spec_events()
    }

    /// Every row becomes as many spaces as the width; the rest stays.
    open spec fn cleared(&self, after: &Self) -> bool {
        &&& after.spec_lines() == Seq::new(
            self.spec_lines().len(),
            |i: int| spaces(self.spec_size().x as int),
        )
        &&& after.spec_size() == self.spec_size()
        &&& after.spec_style() == self.spec_style()
        &&& after.spec_events() == self.spec_events()
    }

    /// Flushing leaves it as it is.
    open spec fn flushed(&self, after: &Self) -> bool {
        *after == *self
    }

    /// Blanks every line.
    fn clear(&mut self)
        ensures
            final(self).spec_size() == old(self).spec_size(),
            final(self).spec_style() == old(self).spec_style(),
            final(self).spec_lines() == Seq::new(
                old(self).spec_lines().len(),
                |i: int| spaces(old(self).spec_size().x as int),
            ),
    {
        let n = self.lines.len();
        let mut j: usize = 0;
        while j < n
            invariant
                j <= n,
                n == self.lines@.len(),
                self.size == old(self).size,
                self.style == old(self).style,
                self.events == old(self).events,
                forall|i: int|
                    0 <= i < j ==> #[trigger] self.lines@[i]@ == spaces(self.size.x as int),
            decreases n - j,
        {
            let line = Self::blank_line(self.size.x);
            self.lines.set(j, line);
            j = j + 1;
        }
        proof {
            assert(self.spec_lines() =~= Seq::new(
                old(self).spec_lines().len(),
                |i: int| spaces(old(self).spec_size().x as int),
            ));
        }
    }

    fn size(&self) -> (r: Vec2)
        ensures
            r == self.spec_size(),
    {
        self.size
    }

    fn set_style(&mut self, style: AnsiStyle)
        ensures
            final(self).spec_style() == style,
            final(self).spec_lines() == old(self).spec_lines(),
            final(self).spec_size() == old(self).spec_size(),
    {
        self.style = style;
    }

    fn style(&self) -> (r: AnsiStyle)
        ensures
            r == self.spec_style(),
    {
        self.style
    }

    /// Prints `text` on line `pos.y` at column `pos.x` as `spec_print_line`
    /// says; a row past the last line is left alone.
    fn print_at(&mut self, pos: Vec2, text: &str)
        ensures
            final(self).spec_lines() == if (pos.y as int) < old(self).spec_lines().len() {
                old(self).spec_lines().update(
                    pos.y as int,
                    spec_print_line(old(self).spec_lines()[pos.y as int], pos.x as int, text@),
                )
            } else {
                old(self).spec_lines()
            },
            final(self).spec_size() == old(self).spec_size(),
            final(self).spec_style() == old(self).spec_style(),
    {
        if (pos.y as usize) < self.lines.len() {
            self.print_line(pos, text);
        }
    }

    fn flush(&mut self) {
    }
}

/// A view of another backend whose origin lies at `offset`: what is printed
/// above the offset is dropped, and what starts left of it loses the columns
/// that fall left of it.
pub struct SlicedBackend<'a, B: Backend> {
    backend: &'a mut B,
    offset: Vec2,
}

impl<'a, B: Backend> SlicedBackend<'a, B> {
    pub fn new(backend: &'a mut B, pos: Vec2) -> (r: Self)
        ensures
            r.spec_offset() == pos,
            *r.spec_backend() == *old(backend),
            *final(r.spec_backend()) == *final(backend),
    {
        SlicedBackend { backend, offset: pos }
    }

    pub closed spec fn spec_offset(&self) -> Vec2 {
        self.offset
    }

    pub closed spec fn spec_backend(&self) -> &'a mut B {
        self.backend
    }
}

/// Where text printed at `pos` through a slice at `offset` lands on the
/// backend below, and what of it is left (as `sliced_target` says).
pub(crate) fn slice_target<'t>(offset: Vec2, pos: Vec2, text: &'t str) -> (r: Option<(Vec2, &'t str)>)
    ensures
        match r {
            Some((q, u)) => sliced_target(offset, pos, text@) == Some((q, u@)),
            None => sliced_target(offset, pos, text@) is None,
        },
{
    if pos.y < offset.y {
        return None;
    }
    if pos.x >= offset.x {
        return Some((Vec2::new(pos.x - offset.x, pos.y - offset.y), text));
    }
    let hidden = offset.x - pos.x;
    let (_, sub_str, left) = slice_str_with_width(text, hidden as usize);
    proof {
        lemma_fit_bounds(text@, hidden as int);
    }
    if sub_str.unicode_len() > 0 {
        Some((Vec2::new(left as u16, pos.y - offset.y), sub_str))
    } else {
        None
    }
}

/// Where text printed at `pos` through a slice at `offset` lands on the
/// backend below, and what of it is left: `None` when nothing is printed.
/// Text above the offset is dropped; text at or right of it moves by the
/// offset; text left of it loses the characters that fit into the hidden
/// columns and starts at the columns those leave over.
pub open spec fn sliced_target(offset: Vec2, pos: Vec2, text: Seq<char>) -> Option<(Vec2, Seq<char>)> {
    if pos.y < offset.y {
        None
    } else if pos.x >= offset.x {
        Some((Vec2 { x: (pos.x - offset.x) as u16, y: (pos.y - offset.y) as u16 }, text))
    } else {
        let (k, left) = spec_fit(text, offset.x - pos.x);
        if text.skip(k).len() == 0 {
            None
        } else {
            Some((Vec2 { x: left as u16, y: (pos.y - offset.y) as u16 }, text.skip(k)))
        }
    }
}

impl<'a, B: Backend> Backend for SlicedBackend<'a, B> {
    /// The backend below takes what `sliced_target` gives, if anything.
    open spec fn printed(&self, after: &Self, pos: Vec2, text: Seq<char>) -> bool {
        &&& after.spec_offset() == self.spec_offset()
        &&& match sliced_target(self.spec_offset(), pos, text) {
            Some((p, t)) => (*self.spec_backend()).printed(&*after.spec_backend(), p, t),
            None => *after.spec_backend() == *self.spec_backend(),
        }
    }

    open spec fn styled(&self, after: &Self, style: AnsiStyle) -> bool {
        &&& after.spec_offset() == self.spec_offset()
        &&& (*self.spec_backend()).styled(&*after.spec_backend(), style)
    }

    open spec fn cleared(&self, after: &Self) -> bool {
        &&& after.spec_offset() == self.spec_offset()
        &&& (*self.spec_backend()).cleared(&*after.spec_backend())
    }

    open spec fn flushed(&self, after: &Self) -> bool {
        &&& after.spec_offset() == self.spec_offset()
        &&& (*self.spec_backend()).flushed(&*after.spec_backend())
    }

    /// The size below, grown by the offset (saturating at the largest size).
    open spec fn screen_size(&self) -> Vec2 {
        let s = (*self.spec_backend()).screen_size();
        let o = self.spec_offset();
        Vec2 { x: sat_add(s.x as int, o.x as int) as u16, y: sat_add(s.y as int, o.y as int) as u16 }
    }

    open spec fn current_style(&self) -> AnsiStyle {
        (*self.spec_backend()).current_style()
    }

    fn print_at(&mut self, pos: Vec2, text: &str) {
        if let Some((q, u)) = slice_target(self.offset, pos, text) {
            self.backend.print_at(q, u);
        }
    }

    fn clear(&mut self) {
        self.backend.clear();
    }

    /// The size below, grown by the offset (saturating at the largest size).
    fn size(&self) -> Vec2 {
        self.backend.size().saturating_add(self.offset)
    }

    fn flush(&mut self) {
        self.backend.flush();
    }

    fn set_style(&mut self, style: AnsiStyle) {
        self.backend.set_style(style);
    }

    fn style(&self) -> AnsiStyle {
        self.backend.style()
    }
}

} // verus!
