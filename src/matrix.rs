//! The rain field: one column every other terminal column, a shared glyph
//! alphabet, and the pace of the whole frame loop.

use std::collections::VecDeque;

use rand::rngs::StdRng;
use vstd::prelude::*;

use crate::line::{line_paints, LineView, MatrixLine};
use crate::paint::{paint_ok, Paint};

verus! {

/// The frame interval of a field with no columns, in nanoseconds.
pub const IDLE_RATE: u32 = 700_000_000;

/// The mathematical state of a rain field.
pub struct MatrixView {
    pub lines: Seq<LineView>,
    pub update_rate: int,
    pub codes: Seq<char>,
}

/// The paints a column shows when drawn: all of its droplets if it changed,
/// nothing otherwise.
pub open spec fn shown(l: LineView) -> Seq<Paint> {
    if l.dirty {
        line_paints(l.droplets, l.buffer[0], l.buffer[1], l.height)
    } else {
        Seq::empty()
    }
}

/// The paints of all columns, left to right.
pub open spec fn field_paints(ls: Seq<LineView>) -> Seq<Paint>
    decreases ls.len(),
{
    if ls.len() == 0 {
        Seq::empty()
    } else {
        field_paints(ls.drop_last()) + shown(ls.last())
    }
}

/// Whether `rate` is the least pace of the columns `ls`, or `IDLE_RATE` when
/// there are none or all are slower.
pub open spec fn least_rate(ls: Seq<LineView>, rate: int) -> bool {
    &&& rate <= IDLE_RATE
    &&& forall|k: int| 0 <= k < ls.len() ==> rate <= #[trigger] ls[k].speed
    &&& (rate == IDLE_RATE || exists|k: int| 0 <= k < ls.len() && rate == #[trigger] ls[k].speed)
}

/// A column changes only when its pace allows; a step marks it dirty, so the
/// next draw shows all of its droplets, and that draw leaves it clean, so the
/// draw after shows nothing.
pub proof fn lemma_step_then_draw(l: LineView, f: LineView, now: int, codes: Seq<char>)
    requires
        l.stepped(f, now, codes),
    ensures
        !l.due(now) ==> f == l,
        l.due(now) ==> f.dirty && shown(f) == line_paints(f.droplets, f.buffer[0], f.buffer[1], f.height),
        shown(LineView { dirty: false, ..f }) == Seq::<Paint>::empty(),
{
}

impl MatrixView {
    pub open spec fn wf(self) -> bool {
        &&& self.codes.len() > 0
        &&& forall|k: int| 0 <= k < self.lines.len() ==> (#[trigger] self.lines[k]).wf()
    }
}

pub struct Matrix {
    lines: VecDeque<MatrixLine>,
    update_rate: u32,
    codes: Vec<char>,
}

impl View for Matrix {
    type V = MatrixView;

    closed spec fn view(&self) -> MatrixView {
        MatrixView {
            lines: self.lines@.map_values(|l: MatrixLine| l@),
            update_rate: self.update_rate as int,
            codes: self.codes@,
        }
    }
}

impl Matrix {
    pub open spec fn wf(&self) -> bool {
        self@.wf()
    }

    /// A field for a screen `width` columns wide and `height` rows tall: a
    /// column at every other screen column, 1, 3, 5 and so on, short of the
    /// last one; each freshly made at time `now`. The frame interval is the
    /// least pace of the columns.
    pub fn new(width: u16, height: u16, codes: Vec<char>, now: u64, rng: &mut StdRng) -> (r: Self)
        requires
            width >= 1,
            codes@.len() > 0,
        ensures
            r.wf(),
            r@.codes == codes@,
            r@.lines.len() == width / 2,
            forall|k: int|
                0 <= k < r@.lines.len() ==> {
                    let l = #[trigger] r@.lines[k];
                    &&& l.column == 2 * k + 1
                    &&& l.height == height
                    &&& l.droplets.len() == 1
                    &&& l.buffer == seq![' ', ' ']
                    &&& l.last_updated == now
                    &&& !l.dirty
                },
            least_rate(r@.lines, r@.update_rate),
    {
        let mut update_rate: u32 = IDLE_RATE;
        let mut lines: VecDeque<MatrixLine> = VecDeque::new();
        let mut i: u16 = 0;
        while i < width - 1
            invariant
                width >= 1,
                i % 2 == 0,
                i <= width,
                lines@.len() == i / 2,
                forall|k: int|
                    0 <= k < lines@.len() ==> {
                        let l = (#[trigger] lines@[k])@;
                        &&& l.wf()
                        &&& l.column == 2 * k + 1
                        &&& l.height == height
                        &&& l.droplets.len() == 1
                        &&& l.buffer == seq![' ', ' ']
                        &&& l.last_updated == now
                        &&& !l.dirty
                    },
                least_rate(lines@.map_values(|l: MatrixLine| l@), update_rate as int),
            decreases width - i,
        {
            let line = MatrixLine::new(height as u32, (i + 1) as i32, now, rng);
            let speed = line.get_speed();
            let ghost before = lines@.map_values(|l: MatrixLine| l@);
            let ghost old_rate = update_rate;
            if speed < update_rate {
                update_rate = speed;
            }
            lines.push_back(line);
            proof {
                let after = lines@.map_values(|l: MatrixLine| l@);
                assert(after =~= before.push(line@));
                if update_rate != IDLE_RATE {
                    if update_rate == speed {
                        assert(after[after.len() - 1] == line@);
                    } else {
                        let k = choose|k: int| 0 <= k < before.len() && old_rate == #[trigger] before[k].speed;
                        assert(after[k] == before[k]);
                    }
                }
                assert forall|k: int| 0 <= k < after.len() implies update_rate <= #[trigger] after[k].speed by {
                    if k < before.len() {
                        assert(after[k] == before[k]);
                    }
                }
            }
            i = i + 2;
        }
        let r = Matrix { lines, update_rate, codes };
        assert(r@.lines.len() == width / 2);
        r
    }

    /// Draws every column that changed since it was last drawn, left to
    /// right, and returns the paints; all columns are then clean.
    pub fn draw(&mut self) -> (r: Vec<Paint>)
        requires
            old(self).wf(),
        ensures
            final(self).wf(),
            r@ == field_paints(old(self)@.lines),
            final(self)@.lines.len() == old(self)@.lines.len(),
            forall|k: int|
                0 <= k < old(self)@.lines.len() ==> #[trigger] final(self)@.lines[k] == (LineView {
                    dirty: false,
                    ..old(self)@.lines[k]
                }),
            final(self)@.update_rate == old(self)@.update_rate,
            final(self)@.codes == old(self)@.codes,
            forall|i: int| 0 <= i < r@.len() ==> paint_ok(#[trigger] r@[i]),
    {
        let ghost o = self@;
        let ghost s0 = self.lines@;
        let n = self.lines.len();
        let mut out: Vec<Paint> = Vec::new();
        let mut k: usize = 0;
        while k < n
            invariant
                n == s0.len(),
                k <= n,
                o.wf(),
                o.lines == s0.map_values(|l: MatrixLine| l@),
                self.lines@.len() == n,
                forall|j: int| 0 <= j < n - k ==> self.lines@[j] == s0[j + k],
                forall|j: int|
                    n - k <= j < n ==> (#[trigger] self.lines@[j])@ == (LineView {
                        dirty: false,
                        ..o.lines[j - (n - k)]
                    }),
                self.update_rate == o.update_rate,
                self.codes@ == o.codes,
                out@ == field_paints(o.lines.subrange(0, k as int)),
                forall|i: int| 0 <= i < out@.len() ==> paint_ok(#[trigger] out@[i]),
            decreases n - k,
        {
            let ghost q = self.lines@;
            let mut line = self.lines.pop_front().unwrap();
            assert(line == s0[k as int]);
            assert(o.lines[k as int] == line@);
            let ghost lv = line@;
            let mut ps = line.draw();
            self.lines.push_back(line);
            let ghost (prev, added) = (out@, ps@);
            out.append(&mut ps);
            proof {
                assert(o.lines.subrange(0, k as int + 1).drop_last() =~= o.lines.subrange(0, k as int));
                assert(added == shown(lv));
                assert forall|i: int| 0 <= i < out@.len() implies paint_ok(#[trigger] out@[i]) by {
                    if i >= prev.len() {
                        assert(out@[i] == added[i - prev.len()]);
                    } else {
                        assert(out@[i] == prev[i]);
                    }
                }
                assert forall|j: int| n - (k + 1) <= j < n implies (#[trigger] self.lines@[j])@ == (LineView {
                    dirty: false,
                    ..o.lines[j - (n - (k + 1))]
                }) by {
                    if j < n - 1 {
                        assert(self.lines@[j] == q[j + 1]);
                    }
                }
            }
            k = k + 1;
        }
        proof {
            assert(o.lines.subrange(0, n as int) =~= o.lines);
            assert forall|j: int| 0 <= j < n implies (#[trigger] self@.lines[j]).wf() by {
                assert(self@.lines[j] == self.lines@[j]@);
            }
        }
        out
    }

    /// Lets every column take its step at time `now`, left to right.
    pub fn update(&mut self, now: u64, rng: &mut StdRng)
        requires
            old(self).wf(),
        ensures
            final(self).wf(),
            final(self)@.lines.len() == old(self)@.lines.len(),
            forall|k: int|
                0 <= k < old(self)@.lines.len() ==> (#[trigger] old(self)@.lines[k]).stepped(
                    final(self)@.lines[k],
                    now as int,
                    old(self)@.codes,
                ),
            final(self)@.update_rate == old(self)@.update_rate,
            final(self)@.codes == old(self)@.codes,
    {
        let ghost o = self@;
        let ghost s0 = self.lines@;
        let n = self.lines.len();
        let mut k: usize = 0;
        while k < n
            invariant
                n == s0.len(),
                k <= n,
                o.wf(),
                o.lines == s0.map_values(|l: MatrixLine| l@),
                self.lines@.len() == n,
                forall|j: int| 0 <= j < n - k ==> self.lines@[j] == s0[j + k],
                forall|j: int|
                    n - k <= j < n ==> (#[trigger] self.lines@[j])@.wf() && o.lines[j - (n
                        - k)].stepped(self.lines@[j]@, now as int, o.codes),
                self.update_rate == o.update_rate,
                self.codes@ == o.codes,
            decreases n - k,
        {
            let ghost q = self.lines@;
            let mut line = self.lines.pop_front().unwrap();
            assert(line == s0[k as int]);
            assert(o.lines[k as int] == line@);
            line.update(now, self.codes.as_slice(), rng);
            self.lines.push_back(line);
            proof {
                assert forall|j: int| n - (k + 1) <= j < n implies (#[trigger] self.lines@[j])@.wf()
                    && o.lines[j - (n - (k + 1))].stepped(self.lines@[j]@, now as int, o.codes) by {
                    if j < n - 1 {
                        assert(self.lines@[j] == q[j + 1]);
                    }
                }
            }
            k = k + 1;
        }
        proof {
            assert forall|j: int| 0 <= j < n implies (#[trigger] self@.lines[j]).wf()
                && o.lines[j].stepped(self@.lines[j], now as int, o.codes) by {
                assert(self@.lines[j] == self.lines@[j]@);
            }
        }
    }

    /// The frame interval: how long the frame loop sleeps, in nanoseconds.
    pub fn update_rate(&self) -> (r: u32)
        ensures
            r == self@.update_rate,
    {
        self.update_rate
    }

    pub fn line_count(&self) -> (r: usize)
        ensures
            r == self@.lines.len(),
    {
        self.lines.len()
    }

    /// The column at place `k`, left to right.
    pub fn line(&self, k: usize) -> (r: Option<&MatrixLine>)
        ensures
            k < self@.lines.len() ==> r.is_some() && r.unwrap()@ == self@.lines[k as int],
            k >= self@.lines.len() ==> r.is_none(),
    {
        if k < self.lines.len() {
            Some(&self.lines[k])
        } else {
            None
        }
    }
}

} // verus!
