//! Printing into a bounded area of a backend.

use vstd::prelude::*;
use crate::backend::{Backend, prints_all, put, through, slice_target, lemma_prints_none, lemma_prints_push, lemma_prints_one, lemma_prints_concat};
use crate::rect::{Rect, rect_contains_inclusive, rect_end};
use crate::style::AnsiStyle;
use crate::util::{spec_fit, slice_str_with_width, cols, lemma_fit_cols, lemma_fit_bounds};
use crate::vec2::{Vec2, vec_add, add_fits, sat_sub};

verus! {

broadcast use vstd::string::group_string_axioms;

/// The longest horizontal line that the printer draws, in columns.
pub const MAX_HORIZONTAL_LINE: usize = 648;

/// The longest horizontal block line that the printer draws, in columns.
pub const MAX_HORIZONTAL_BLOCK_LINE: usize = 130;

/// `n` copies of `c`.
pub open spec fn repeated(c: char, n: int) -> Seq<char> {
    Seq::new(n as nat, |i: int| c)
}

/// What `print` hands the backend for `text` at `start` (relative to the
/// bound's corner): the absolute position and the part of `text` that fits
/// between `start` and the bound's right edge (measured as the columns
/// from `start.x` to that edge's absolute column); `None` when the start,
/// moved by the corner, lies outside the bound with its far edges.
pub open spec fn print_clip(bound: Rect, start: Vec2, text: Seq<char>) -> Option<(Vec2, Seq<char>)> {
    let p = vec_add(start, bound.start);
    if !rect_contains_inclusive(bound, p) {
        None
    } else {
        let k = spec_fit(text, rect_end(bound).x - start.x).0;
        Some((vec_add(bound.start, start), text.take(k)))
    }
}

/// What `print` hands on takes no more columns than lie between the start
/// and the bound's right edge (as `print_clip` measures it), and is a prefix
/// of the text.
pub proof fn lemma_clip_fits(bound: Rect, start: Vec2, text: Seq<char>)
    requires
        print_fits(bound, start),
    ensures
        match print_clip(bound, start, text) {
            Some((_, t)) => {
                &&& cols(t) <= rect_end(bound).x - start.x
                &&& t.len() <= text.len()
                &&& t == text.take(t.len() as int)
            },
            None => true,
        },
{
    if print_clip(bound, start, text) is Some {
        let w = rect_end(bound).x - start.x;
        lemma_fit_cols(text, w);
        lemma_fit_bounds(text, w);
    }
}

/// The prints of a column of `n` copies of `c` down from `start`, relative
/// to the corner `origin`: one cell each, top to bottom, at absolute
/// positions.
pub open spec fn column_ops(origin: Vec2, start: Vec2, n: int, c: char) -> Seq<(Vec2, Seq<char>)> {
    Seq::new(
        n as nat,
        |i: int| (vec_add(origin, Vec2 { x: start.x, y: (start.y + i) as u16 }), seq![c]),
    )
}

/// The prints of a frame along the edges of `bound`: the top and bottom
/// lines, the left and right columns, then the four corners.
pub open spec fn rect_ops(bound: Rect) -> Seq<(Vec2, Seq<char>)> {
    let w = (bound.size.x - 1) as u16;
    let h = if bound.size.y >= 1 { (bound.size.y - 1) as u16 } else { 0u16 };
    let o = bound.start;
    seq![
        (vec_add(o, Vec2 { x: 0, y: 0 }), repeated('─', w as int)),
        (vec_add(o, Vec2 { x: 0, y: h }), repeated('─', w as int)),
    ] + column_ops(o, Vec2 { x: 0, y: 0 }, bound.size.y as int, '│') + column_ops(
        o,
        Vec2 { x: w, y: 0 },
        bound.size.y as int,
        '│',
    ) + seq![
        (vec_add(o, Vec2 { x: 0, y: 0 }), seq!['┌']),
        (vec_add(o, Vec2 { x: w, y: 0 }), seq!['┐']),
        (vec_add(o, Vec2 { x: 0, y: h }), seq!['└']),
        (vec_add(o, Vec2 { x: w, y: h }), seq!['┘']),
    ]
}

/// Whether `print` can run without overflow: the start moved by the corner
/// fits, and where it lies in the bound, so does the bound's far corner.
pub open spec fn print_fits(bound: Rect, start: Vec2) -> bool {
    &&& add_fits(start, bound.start)
    &&& rect_contains_inclusive(bound, vec_add(start, bound.start)) ==> add_fits(
        bound.start,
        bound.size,
    )
}

/// The bound of a printer seen from `pos`: its corner moved back by `pos`
/// (saturating at zero), its size grown by `pos`.
pub open spec fn sliced_bound(bound: Rect, pos: Vec2) -> Rect {
    Rect {
        start: Vec2 {
            x: sat_sub(bound.start.x as int, pos.x as int) as u16,
            y: sat_sub(bound.start.y as int, pos.y as int) as u16,
        },
        size: vec_add(bound.size, pos),
    }
}

/// Prints into a bounded area of a backend, seen through the slices that
/// `sliced` opened (the last one nearest to what is printed).
pub struct Printer<'a, B: Backend> {
    bound: Rect,
    backend: &'a mut B,
    offsets: Vec<Vec2>,
}

/// `n` copies of the string `unit` holding the single character `c`.
fn repeat_char_str(unit: &str, c: char, n: usize) -> (r: String)
    requires
        unit@ == seq![c],
    ensures
        r@ == repeated(c, n as int),
{
    let mut s = String::new();
    let mut i: usize = 0;
    while i < n
        invariant
            i <= n,
            unit@ == seq![c],
            s@ == repeated(c, i as int),
        decreases n - i,
    {
        s.append(unit);
        proof {
            assert(s@ =~= repeated(c, i + 1));
        }
        i = i + 1;
    }
    s
}

impl<'a, B: Backend> Printer<'a, B> {
    pub closed spec fn spec_bound(&self) -> Rect {
        self.bound
    }

    pub closed spec fn spec_backend(&self) -> B {
        *self.backend
    }

    /// The offsets of the slices the printer prints through.
    pub closed spec fn spec_offsets(&self) -> Seq<Vec2> {
        self.offsets@
    }

    /// Whether printing at `pos`, relative to the bound's corner, without
    /// clipping can run: the position moved by the corner fits.
    pub open spec fn raw_ok(&self, pos: Vec2) -> bool {
        add_fits(self.spec_bound().start, pos)
    }

    /// Whether a vertical line of `n` cells can be drawn down from `start`:
    /// each cell, moved by the corner, fits.
    pub open spec fn vertical_ok(&self, start: Vec2, n: u16) -> bool {
        forall|i: int|
            0 <= i < n ==> {
                &&& start.y + i <= u16::MAX
                &&& #[trigger] self.raw_ok(Vec2 { x: start.x, y: (start.y + i) as u16 })
            }
    }

    /// A printer over the whole of `backend`.
    pub fn new(backend: &'a mut B) -> (r: Self)
        ensures
            r.spec_bound().start == (Vec2 { x: 0, y: 0 }),
            r.spec_bound().size == old(backend).screen_size(),
            r.spec_backend() == *old(backend),
            r.spec_offsets() == Seq::<Vec2>::empty(),
    {
        let size = backend.size();
        Printer { bound: Rect::new(Vec2::new(0, 0), size), backend, offsets: Vec::new() }
    }

    /// Runs `f` with this printer seen from `pos`: what it prints goes
    /// through one more slice at `pos` (text above or left of it is cut, the
    /// rest moves back by it), and its bound starts at this bound's corner
    /// moved back by `pos` (saturating at zero) and is larger by `pos`. The
    /// bound and the slices are put back afterwards.
    pub fn sliced(&mut self, pos: Vec2, f: impl FnOnce(&mut Self))
        requires
            add_fits(old(self).spec_bound().size, pos),
            forall|p: &mut Self|
                (*p).spec_bound() == sliced_bound(old(self).spec_bound(), pos) && (*p).spec_backend()
                    == old(self).spec_backend() && (*p).spec_offsets() == old(
                    self,
                ).spec_offsets().push(pos) ==> #[trigger] call_requires(f, (p,)),
        ensures
            final(self).spec_bound() == old(self).spec_bound(),
            final(self).spec_offsets() == old(self).spec_offsets(),
            exists|p: &mut Self|
                {
                    &&& (*p).spec_bound() == sliced_bound(old(self).spec_bound(), pos)
                    &&& (*p).spec_backend() == old(self).spec_backend()
                    &&& (*p).spec_offsets() == old(self).spec_offsets().push(pos)
                    &&& #[trigger] call_ensures(f, (p,), ())
                    &&& (*final(p)).spec_backend() == final(self).spec_backend()
                },
    {
        let bound = Rect::new(self.bound.start().saturating_sub(pos), self.bound.size() + pos);
        let old_bound = self.bound;
        let mut saved: Vec<Vec2> = Vec::new();
        let mut i: usize = 0;
        while i < self.offsets.len()
            invariant
                i <= self.offsets@.len(),
                saved@ == self.offsets@.take(i as int),
            decreases self.offsets@.len() - i,
        {
            saved.push(self.offsets[i]);
            proof {
                assert(saved@ =~= self.offsets@.take(i + 1));
            }
            i = i + 1;
        }
        proof {
            assert(saved@ =~= self.offsets@);
        }
        self.offsets.push(pos);
        self.bound = bound;
        f(self);
        self.offsets = saved;
        self.bound = old_bound;
    }

    /// Runs `f` with the bound replaced by `bound`, then puts the old one back.
    pub fn with_bound(&mut self, bound: Rect, f: impl FnOnce(&mut Self))
        requires
            forall|p: &mut Self|
                (*p).spec_bound() == bound && (*p).spec_backend() == old(self).spec_backend() && (
                *p).spec_offsets() == old(self).spec_offsets() ==> #[trigger] call_requires(f, (p,)),
        ensures
            final(self).spec_bound() == old(self).spec_bound(),
            exists|p: &mut Self|
                {
                    &&& (*p).spec_bound() == bound
                    &&& (*p).spec_backend() == old(self).spec_backend()
                    &&& (*p).spec_offsets() == old(self).spec_offsets()
                    &&& #[trigger] call_ensures(f, (p,), ())
                    &&& (*final(p)).spec_backend() == final(self).spec_backend()
                    &&& (*final(p)).spec_offsets() == final(self).spec_offsets()
                },
    {
        let old_bound = self.bound;
        self.bound = bound;
        f(self);
        self.bound = old_bound;
    }

    /// Runs `f` with `style` set on the backend, then sets the style that
    /// was there before.
    pub fn with_style(&mut self, style: AnsiStyle, f: impl FnOnce(&mut Self))
        requires
            forall|p: &mut Self|
                (*p).spec_bound() == old(self).spec_bound() && (*p).spec_offsets() == old(
                    self,
                ).spec_offsets() ==> #[trigger] call_requires(f, (p,)),
        ensures
            exists|p: &mut Self|
                {
                    &&& (*p).spec_bound() == old(self).spec_bound()
                    &&& (*p).spec_offsets() == old(self).spec_offsets()
                    &&& final(self).spec_offsets() == (*final(p)).spec_offsets()
                    &&& old(self).spec_backend().styled(&(*p).spec_backend(), style)
                    &&& #[trigger] call_ensures(f, (p,), ())
                    &&& final(self).spec_bound() == (*final(p)).spec_bound()
                    &&& (*final(p)).spec_backend().styled(
                        &final(self).spec_backend(),
                        old(self).spec_backend().current_style(),
                    )
                },
    {
        let old_style = self.backend.style();
        self.backend.set_style(style);
        f(self);
        self.backend.set_style(old_style);
    }

    /// Puts `bound` in place of the bound and gives back the one it replaced.
    pub(crate) fn replace_bound(&mut self, bound: Rect) -> (r: Rect)
        ensures
            r == old(self).spec_bound(),
            final(self).spec_bound() == bound,
            final(self).spec_backend() == old(self).spec_backend(),
            final(self).spec_offsets() == old(self).spec_offsets(),
    {
        let old_bound = self.bound;
        self.bound = bound;
        old_bound
    }

    /// Sets `style` on the backend.
    pub(crate) fn set_backend_style(&mut self, style: AnsiStyle)
        ensures
            final(self).spec_bound() == old(self).spec_bound(),
            old(self).spec_backend().styled(&final(self).spec_backend(), style),
            final(self).spec_offsets() == old(self).spec_offsets(),
    {
        self.backend.set_style(style);
    }

    /// Whether `print_rect` can run on the current bound.
    pub(crate) fn can_print_rect(&self) -> (r: bool)
        ensures
            r == self.rect_ok(),
    {
        let size = self.bound.size;
        if size.x < 1 || size.x as usize - 1 > MAX_HORIZONTAL_LINE {
            return false;
        }
        let w = size.x - 1;
        let h = if size.y >= 1 { size.y - 1 } else { 0 };
        self.bound.start.x as u32 + w as u32 <= 0xffff && self.bound.start.y as u32 + h as u32
            <= 0xffff
    }

    pub fn clear(&mut self)
        ensures
            final(self).spec_bound() == old(self).spec_bound(),
            old(self).spec_backend().cleared(&final(self).spec_backend()),
            final(self).spec_offsets() == old(self).spec_offsets(),
    {
        self.backend.clear();
    }

    pub fn bound(&self) -> (r: Rect)
        ensures
            r == self.spec_bound(),
    {
        self.bound
    }

    pub fn style(&self) -> (r: AnsiStyle)
        ensures
            r == self.spec_backend().current_style(),
    {
        self.backend.style()
    }

    /// Where `print` puts `text` and the part of it that it prints.
    fn clip<'t>(&self, start: Vec2, text: &'t str) -> (r: Option<(Vec2, &'t str)>)
        requires
            print_fits(self.spec_bound(), start),
        ensures
            match r {
                Some((p, t)) => print_clip(self.spec_bound(), start, text@) == Some((p, t@)),
                None => print_clip(self.spec_bound(), start, text@) is None,
            },
    {
        let p = start + self.bound.start();
        if !self.bound.contains_inclusive(p) {
            return None;
        }
        let end = self.bound.end();
        let sub_str = slice_str_with_width(text, (end.x - start.x) as usize).0;
        Some((self.bound.start() + start, sub_str))
    }

    /// Prints `text` at `start`, relative to the bound's corner, cut where
    /// `print_clip` cuts it; prints nothing where `print_clip` gives `None`.
    pub fn print(&mut self, start: Vec2, text: &str)
        requires
            print_fits(old(self).spec_bound(), start),
        ensures
            final(self).spec_bound() == old(self).spec_bound(),
            final(self).spec_offsets() == old(self).spec_offsets(),
            match print_clip(old(self).spec_bound(), start, text@) {
                Some((p, t)) => put(
                    old(self).spec_offsets(),
                    old(self).spec_backend(),
                    final(self).spec_backend(),
                    p,
                    t,
                ),
                None => final(self).spec_backend() == old(self).spec_backend(),
            },
    {
        if let Some((target, sub_str)) = self.clip(start, text) {
            self.put(target, sub_str);
        }
    }

    /// Prints `text` at the absolute position `pos` through the slices.
    fn put(&mut self, pos: Vec2, text: &str)
        ensures
            final(self).spec_bound() == old(self).spec_bound(),
            final(self).spec_offsets() == old(self).spec_offsets(),
            put(old(self).spec_offsets(), old(self).spec_backend(), final(self).spec_backend(), pos, text@),
    {
        let mut i: usize = self.offsets.len();
        let mut p = pos;
        let mut t: &str = text;
        proof {
            assert(self.offsets@.take(i as int) =~= self.offsets@);
        }
        while i > 0
            invariant
                i <= self.offsets@.len(),
                self == old(self),
                through(self.offsets@.take(i as int), p, t@) == through(self.offsets@, pos, text@),
            decreases i,
        {
            proof {
                assert(self.offsets@.take(i as int).drop_last() =~= self.offsets@.take(i - 1));
                assert(self.offsets@.take(i as int).last() == self.offsets@[i - 1]);
            }
            match slice_target(self.offsets[i - 1], p, t) {
                Some((q, u)) => {
                    p = q;
                    t = u;
                },
                None => {
                    return ;
                },
            }
            i = i - 1;
        }
        self.backend.print_at(p, t);
    }

    /// Prints `text` at `start`, relative to the bound's corner, as it is.
    fn raw_print(&mut self, start: Vec2, text: &str)
        requires
            old(self).raw_ok(start),
        ensures
            final(self).spec_bound() == old(self).spec_bound(),
            final(self).spec_offsets() == old(self).spec_offsets(),
            put(
                old(self).spec_offsets(),
                old(self).spec_backend(),
                final(self).spec_backend(),
                vec_add(old(self).spec_bound().start, start),
                text@,
            ),
    {
        let p = self.bound.start() + start;
        self.put(p, text);
    }

    /// Prints `text` at `start` with `style`, then sets the style that was
    /// there before.
    pub fn print_styled(&mut self, start: Vec2, style: AnsiStyle, text: &str)
        requires
            print_fits(old(self).spec_bound(), start),
        ensures
            final(self).spec_bound() == old(self).spec_bound(),
            final(self).spec_offsets() == old(self).spec_offsets(),
            exists|b1: B, b2: B|
                {
                    &&& #[trigger] old(self).spec_backend().styled(&b1, style)
                    &&& match print_clip(old(self).spec_bound(), start, text@) {
                        Some((p, t)) => put(old(self).spec_offsets(), b1, b2, p, t),
                        None => b2 == b1,
                    }
                    &&& #[trigger] b2.styled(
                        &final(self).spec_backend(),
                        old(self).spec_backend().current_style(),
                    )
                },
    {
        let old_style = self.backend.style();
        self.backend.set_style(style);
        let ghost b1 = self.spec_backend();
        self.print(start, text);
        let ghost b2 = self.spec_backend();
        self.backend.set_style(old_style);
        proof {
            assert(old(self).spec_backend().styled(&b1, style));
            assert(b2.styled(&self.spec_backend(), old(self).spec_backend().current_style()));
        }
    }

    /// Draws `n` copies of the single character of `unit` downwards from `start`.
    fn print_column(&mut self, start: Vec2, n: u16, unit: &str, c: char)
        requires
            unit@ == seq![c],
            old(self).vertical_ok(start, n),
        ensures
            final(self).spec_bound() == old(self).spec_bound(),
            final(self).spec_offsets() == old(self).spec_offsets(),
            prints_all(
                old(self).spec_backend(),
                final(self).spec_backend(),
                old(self).spec_offsets(),
                column_ops(old(self).spec_bound().start, start, n as int, c),
            ),
    {
        proof {
            lemma_prints_none(self.spec_backend(), self.spec_offsets());
            assert(column_ops(self.spec_bound().start, start, 0, c) =~= Seq::<
                (Vec2, Seq<char>),
            >::empty());
        }
        let mut i: u16 = 0;
        while i < n
            invariant
                i <= n,
                unit@ == seq![c],
                self.spec_bound() == old(self).spec_bound(),
                old(self).vertical_ok(start, n),
                self.spec_offsets() == old(self).spec_offsets(),
                prints_all(
                    old(self).spec_backend(),
                    self.spec_backend(),
                    old(self).spec_offsets(),
                    column_ops(old(self).spec_bound().start, start, i as int, c),
                ),
            decreases n - i,
        {
            proof {
                assert(old(self).raw_ok(Vec2 { x: start.x, y: (start.y + i) as u16 }));
            }
            let ghost before = self.spec_backend();
            self.raw_print(start.add_y(i), unit);
            proof {
                let o = old(self).spec_bound().start;
                lemma_prints_push(
                    old(self).spec_backend(),
                    before,
                    self.spec_backend(),
                    old(self).spec_offsets(),
                    column_ops(o, start, i as int, c),
                    vec_add(o, Vec2 { x: start.x, y: (start.y + i) as u16 }),
                    seq![c],
                );
                assert(column_ops(o, start, i as int, c).push(
                    (vec_add(o, Vec2 { x: start.x, y: (start.y + i) as u16 }), seq![c]),
                ) =~= column_ops(o, start, i + 1, c));
            }
            i = i + 1;
        }
    }

    /// Draws a vertical line at column `pos` over the bound's height.
    pub fn print_vertical_line(&mut self, pos: u16)
        requires
            old(self).vertical_ok(Vec2 { x: pos, y: 0 }, old(self).spec_bound().size.y),
        ensures
            final(self).spec_bound() == old(self).spec_bound(),
            final(self).spec_offsets() == old(self).spec_offsets(),
            prints_all(
                old(self).spec_backend(),
                final(self).spec_backend(),
                old(self).spec_offsets(),
                column_ops(
                    old(self).spec_bound().start,
                    Vec2 { x: pos, y: 0 },
                    old(self).spec_bound().size.y as int,
                    '│',
                ),
            ),
    {
        let h = self.bound.h();
        self.print_vertical_line_at(Vec2::new(pos, 0), h as usize);
    }

    /// Draws a vertical line of `size` cells down from `start`; `size` is
    /// taken modulo 2^16.
    pub fn print_vertical_line_at(&mut self, start: Vec2, size: usize)
        requires
            old(self).vertical_ok(start, size as u16),
        ensures
            final(self).spec_bound() == old(self).spec_bound(),
            final(self).spec_offsets() == old(self).spec_offsets(),
            prints_all(
                old(self).spec_backend(),
                final(self).spec_backend(),
                old(self).spec_offsets(),
                column_ops(old(self).spec_bound().start, start, (size as u16) as int, '│'),
            ),
    {
        let unit = "│";
        proof {
            reveal_strlit("│");
            assert(unit@ =~= seq!['│']);
        }
        self.print_column(start, size as u16, unit, '│');
    }

    /// Draws a vertical block line of `size` cells down from `start`; `size`
    /// is taken modulo 2^16.
    pub fn print_vertical_block_line_at(&mut self, start: Vec2, size: usize)
        requires
            old(self).vertical_ok(start, size as u16),
        ensures
            final(self).spec_bound() == old(self).spec_bound(),
            final(self).spec_offsets() == old(self).spec_offsets(),
            prints_all(
                old(self).spec_backend(),
                final(self).spec_backend(),
                old(self).spec_offsets(),
                column_ops(old(self).spec_bound().start, start, (size as u16) as int, '█'),
            ),
    {
        let unit = "█";
        proof {
            reveal_strlit("█");
            assert(unit@ =~= seq!['█']);
        }
        self.print_column(start, size as u16, unit, '█');
    }

    /// Draws a horizontal line at row `pos`, one cell shorter than the bound
    /// is wide.
    pub fn print_horizontal_line(&mut self, pos: u16)
        requires
            old(self).spec_bound().size.x >= 1,
            old(self).spec_bound().size.x - 1 <= MAX_HORIZONTAL_LINE,
            old(self).raw_ok(Vec2 { x: 0, y: pos }),
        ensures
            final(self).spec_bound() == old(self).spec_bound(),
            final(self).spec_offsets() == old(self).spec_offsets(),
            put(
                old(self).spec_offsets(),
                old(self).spec_backend(),
                final(self).spec_backend(),
                vec_add(old(self).spec_bound().start, Vec2 { x: 0, y: pos }),
                repeated('─', old(self).spec_bound().size.x - 1),
            ),
    {
        let w = self.bound.w();
        self.print_horizontal_line_at(Vec2::new(0, pos), w as usize - 1);
    }

    /// Draws a horizontal line of `size` cells right from `start`.
    pub fn print_horizontal_line_at(&mut self, start: Vec2, size: usize)
        requires
            size <= MAX_HORIZONTAL_LINE,
            old(self).raw_ok(start),
        ensures
            final(self).spec_bound() == old(self).spec_bound(),
            final(self).spec_offsets() == old(self).spec_offsets(),
            put(
                old(self).spec_offsets(),
                old(self).spec_backend(),
                final(self).spec_backend(),
                vec_add(old(self).spec_bound().start, start),
                repeated('─', size as int),
            ),
    {
        let unit = "─";
        proof {
            reveal_strlit("─");
            assert(unit@ =~= seq!['─']);
        }
        let line = repeat_char_str(unit, '─', size);
        self.raw_print(start, line.as_str());
    }

    /// Draws a horizontal block line of `size` cells right from `start`.
    pub fn print_horizontal_block_line_at(&mut self, start: Vec2, size: usize)
        requires
            size <= MAX_HORIZONTAL_BLOCK_LINE,
            old(self).raw_ok(start),
        ensures
            final(self).spec_bound() == old(self).spec_bound(),
            final(self).spec_offsets() == old(self).spec_offsets(),
            put(
                old(self).spec_offsets(),
                old(self).spec_backend(),
                final(self).spec_backend(),
                vec_add(old(self).spec_bound().start, start),
                repeated('█', size as int),
            ),
    {
        let unit = "█";
        proof {
            reveal_strlit("█");
            assert(unit@ =~= seq!['█']);
        }
        let line = repeat_char_str(unit, '█', size);
        self.raw_print(start, line.as_str());
    }

    /// Whether `print_rect` can run: the bound is at least one column wide
    /// and not wider than the longest line plus one, and its last cell, moved
    /// by the corner, fits.
    pub open spec fn rect_ok(&self) -> bool {
        let size = self.spec_bound().size;
        let w = (size.x - 1) as u16;
        let h = if size.y >= 1 { (size.y - 1) as u16 } else { 0u16 };
        &&& size.x >= 1
        &&& size.x - 1 <= MAX_HORIZONTAL_LINE
        &&& self.raw_ok(Vec2 { x: w, y: h })
    }

    /// Draws a frame along the bound's edges.
    pub fn print_rect(&mut self)
        requires
            old(self).rect_ok(),
        ensures
            final(self).spec_bound() == old(self).spec_bound(),
            final(self).spec_offsets() == old(self).spec_offsets(),
            prints_all(
                old(self).spec_backend(),
                final(self).spec_backend(),
                old(self).spec_offsets(),
                rect_ops(old(self).spec_bound()),
            ),
    {
        let w = self.bound.w().saturating_sub(1);
        let h = self.bound.h().saturating_sub(1);
        let ghost o = self.spec_bound().start;
        let ghost sz = self.spec_bound().size;
        let ghost s0 = self.spec_backend();
        let ghost of = self.spec_offsets();
        self.print_horizontal_line(0);
        let ghost s1 = self.spec_backend();
        self.print_horizontal_line(h);
        let ghost s2 = self.spec_backend();
        proof {
            assert forall|i: int| 0 <= i < self.spec_bound().size.y implies {
                &&& 0 + i <= u16::MAX
                &&& #[trigger] self.raw_ok(Vec2 { x: 0, y: (0 + i) as u16 })
            } by {}
        }
        self.print_vertical_line(0);
        let ghost s3 = self.spec_backend();
        proof {
            assert forall|i: int| 0 <= i < self.spec_bound().size.y implies {
                &&& 0 + i <= u16::MAX
                &&& #[trigger] self.raw_ok(Vec2 { x: w, y: (0 + i) as u16 })
            } by {}
        }
        self.print_vertical_line(w);
        let ghost s4 = self.spec_backend();
        let left_top = "┌";
        let right_top = "┐";
        let left_bottom = "└";
        let right_bottom = "┘";
        proof {
            reveal_strlit("┌");
            reveal_strlit("┐");
            reveal_strlit("└");
            reveal_strlit("┘");
            assert(left_top@ =~= seq!['┌']);
            assert(right_top@ =~= seq!['┐']);
            assert(left_bottom@ =~= seq!['└']);
            assert(right_bottom@ =~= seq!['┘']);
        }
        self.raw_print(Vec2::new(0, 0), left_top);
        let ghost s5 = self.spec_backend();
        self.raw_print(Vec2::new(w, 0), right_top);
        let ghost s6 = self.spec_backend();
        self.raw_print(Vec2::new(0, h), left_bottom);
        let ghost s7 = self.spec_backend();
        self.raw_print(Vec2::new(w, h), right_bottom);
        proof {
            let line = repeated('─', sz.x - 1);
            let p0 = vec_add(o, Vec2 { x: 0, y: 0 });
            let ph = vec_add(o, Vec2 { x: 0, y: h });
            let pw = vec_add(o, Vec2 { x: w, y: 0 });
            let pwh = vec_add(o, Vec2 { x: w, y: h });
            lemma_prints_one(s0, s1, of, p0, line);
            lemma_prints_push(s0, s1, s2, of, seq![(p0, line)], ph, line);
            let c1 = column_ops(o, Vec2 { x: 0, y: 0 }, sz.y as int, '│');
            let c2 = column_ops(o, Vec2 { x: w, y: 0 }, sz.y as int, '│');
            let top = seq![(p0, line)].push((ph, line));
            lemma_prints_concat(s0, s2, s3, of, top, c1);
            lemma_prints_concat(s0, s3, s4, of, top + c1, c2);
            let mid = top + c1 + c2;
            lemma_prints_push(s0, s4, s5, of, mid, p0, seq!['┌']);
            lemma_prints_push(s0, s5, s6, of, mid.push((p0, seq!['┌'])), pw, seq!['┐']);
            lemma_prints_push(
                s0,
                s6,
                s7,
                of,
                mid.push((p0, seq!['┌'])).push((pw, seq!['┐'])),
                ph,
                seq!['└'],
            );
            lemma_prints_push(
                s0,
                s7,
                self.spec_backend(),
                of,
                mid.push((p0, seq!['┌'])).push((pw, seq!['┐'])).push((ph, seq!['└'])),
                pwh,
                seq!['┘'],
            );
            assert(mid.push((p0, seq!['┌'])).push((pw, seq!['┐'])).push((ph, seq!['└'])).push(
                (pwh, seq!['┘']),
            ) =~= rect_ops(old(self).spec_bound()));
        }
    }
}

} // verus!
