//! One terminal column: the droplets falling through it, the two glyph cells
//! they share, and the column's own pace.

use std::collections::VecDeque;

use rand::rngs::StdRng;
use vstd::prelude::*;

use crate::droplet::{advanced_buffer, droplet_paints, DropletView, MatrixDroplet, MAX_LENGTH};
use crate::paint::{paint_ok, Paint};
use crate::random::random_in;

verus! {

/// No head row in a column ever gets past this: a droplet is evicted once it
/// is more than its own length below a screen of at most `MAX_LENGTH` rows.
pub const HEAD_LIMIT: i32 = 196606;

/// Nanoseconds in a millisecond.
pub const NANOS_PER_MILLI: u32 = 1_000_000;

/// The mathematical state of a column.
pub struct LineView {
    pub buffer: Seq<char>,
    pub droplets: Seq<DropletView>,
    pub column: int,
    pub speed: int,
    pub last_updated: int,
    pub height: int,
    pub dirty: bool,
}

/// Every droplet one row further down.
pub open spec fn advanced_all(ds: Seq<DropletView>) -> Seq<DropletView> {
    ds.map_values(|d: DropletView| d.advanced())
}

/// The queue once the oldest droplet is evicted, if it is past the bottom.
pub open spec fn after_eviction(ds: Seq<DropletView>, h: int) -> Seq<DropletView> {
    if ds.len() > 0 && ds[0].past_bottom(h) {
        ds.drop_first()
    } else {
        ds
    }
}

/// Whether any of the droplets has its head on one of the `h` screen rows.
pub open spec fn any_visible(ds: Seq<DropletView>, h: int) -> bool {
    exists|i: int| 0 <= i < ds.len() && 0 <= #[trigger] ds[i].head_row < h
}

/// The paints of all droplets of a column, oldest first.
pub open spec fn line_paints(ds: Seq<DropletView>, behind: char, lead: char, h: int) -> Seq<
    Paint,
>
    decreases ds.len(),
{
    if ds.len() == 0 {
        Seq::empty()
    } else {
        line_paints(ds.drop_last(), behind, lead, h) + droplet_paints(ds.last(), behind, lead, h)
    }
}

/// What the steps of the droplets `ds` may have done to the two-cell buffer:
/// nothing if no head was on the screen, else the head cell holds a glyph of
/// `codes`, and the cell behind it another one or the former head glyph.
pub open spec fn buffer_after(
    before: Seq<char>,
    after: Seq<char>,
    codes: Seq<char>,
    ds: Seq<DropletView>,
    h: int,
) -> bool {
    if any_visible(ds, h) {
        &&& after.len() == 2
        &&& codes.contains(after[1])
        &&& (codes.contains(after[0]) || after[0] == before[1])
    } else {
        after == before
    }
}

/// A column always holds a droplet: a step from a well-formed column keeps
/// at least one in its queue.
pub proof fn lemma_step_keeps_a_droplet(l: LineView, f: LineView, now: int, codes: Seq<char>)
    requires
        l.wf(),
        l.stepped(f, now, codes),
    ensures
        f.droplets.len() >= 1,
{
    if l.due(now) {
        let adv = advanced_all(l.droplets);
        assert(adv[adv.len() - 1] == l.droplets.last().advanced());
        assert(adv.len() == l.droplets.len());
    }
}

/// One more droplet step keeps the buffer within what `buffer_after` allows.
proof fn lemma_buffer_step(
    b0: Seq<char>,
    b1: Seq<char>,
    b2: Seq<char>,
    codes: Seq<char>,
    ds: Seq<DropletView>,
    d: DropletView,
    h: int,
)
    requires
        b0.len() == 2,
        b1.len() == 2,
        buffer_after(b0, b1, codes, ds, h),
        advanced_buffer(b1, b2, codes, d.head_row, h),
    ensures
        buffer_after(b0, b2, codes, ds.push(d), h),
{
    let ds2 = ds.push(d);
    if any_visible(ds, h) {
        let i = choose|i: int| 0 <= i < ds.len() && 0 <= #[trigger] ds[i].head_row < h;
        assert(ds2[i] == ds[i]);
    }
    if 0 <= d.head_row < h {
        assert(ds2[ds.len() as int] == d);
    }
    if any_visible(ds2, h) {
        if !(0 <= d.head_row < h) {
            let i = choose|i: int| 0 <= i < ds2.len() && 0 <= #[trigger] ds2[i].head_row < h;
            assert(ds2[i] == ds[i]);
        }
    }
}

impl LineView {
    pub open spec fn wf(self) -> bool {
        &&& self.buffer.len() == 2
        &&& 0 <= self.height <= MAX_LENGTH
        &&& 1 <= self.column <= MAX_LENGTH
        &&& self.droplets.len() >= 1
        &&& forall|i: int|
            0 <= i < self.droplets.len() ==> (#[trigger] self.droplets[i]).wf()
                && self.droplets[i].column == self.column
        &&& forall|i: int, j: int|
            0 <= i < j < self.droplets.len() ==> #[trigger] self.droplets[i].head_row
                > #[trigger] self.droplets[j].head_row
        &&& !self.droplets.last().tail_clear_of_top()
        &&& self.droplets[0].head_row <= HEAD_LIMIT
    }

    /// Time since the last change, in nanoseconds; a clock that went
    /// backwards counts as none.
    pub open spec fn elapsed(self, now: int) -> int {
        if now >= self.last_updated {
            now - self.last_updated
        } else {
            0
        }
    }

    /// Whether the column's pace lets it change at time `now`.
    pub open spec fn due(self, now: int) -> bool {
        self.elapsed(now) >= self.speed
    }

    /// Whether `f` is what this column may become at time `now`: itself when
    /// its pace does not allow a change; else every droplet one row down, the
    /// oldest evicted once past the bottom, a fresh droplet added once the
    /// newest has cleared the top, the buffer as `buffer_after` allows, the
    /// column dirty and `now` remembered.
    pub open spec fn stepped(self, f: LineView, now: int, codes: Seq<char>) -> bool {
        if !self.due(now) {
            f == self
        } else {
            let kept = self.kept();
            let spawned = kept.last().tail_clear_of_top();
            &&& f.droplets.len() == kept.len() + (if spawned { 1int } else { 0 })
            &&& f.droplets.subrange(0, kept.len() as int) == kept
            &&& spawned ==> MatrixDroplet::new_shape(f.droplets.last(), self.height)
                && f.droplets.last().column == self.column
            &&& f.column == self.column
            &&& f.speed == self.speed
            &&& f.height == self.height
            &&& f.last_updated == now
            &&& f.dirty
            &&& buffer_after(self.buffer, f.buffer, codes, advanced_all(self.droplets), self.height)
        }
    }

    /// The queue after one step, before a new droplet is added.
    pub open spec fn kept(self) -> Seq<DropletView> {
        after_eviction(advanced_all(self.droplets), self.height)
    }
}

pub struct MatrixLine {
    buffer: [char; 2],
    droplets: VecDeque<MatrixDroplet>,
    pos_x: i32,
    speed: u32,
    last_updated: u64,
    screen_height: u32,
    should_draw: bool,
}

impl View for MatrixLine {
    type V = LineView;

    closed spec fn view(&self) -> LineView {
        LineView {
            buffer: self.buffer@,
            droplets: self.droplets@.map_values(|d: MatrixDroplet| d@),
            column: self.pos_x as int,
            speed: self.speed as int,
            last_updated: self.last_updated as int,
            height: self.screen_height as int,
            dirty: self.should_draw,
        }
    }
}

impl MatrixLine {
    pub open spec fn wf(&self) -> bool {
        self@.wf()
    }

    /// A column at horizontal position `pos_x` holding one droplet, changing
    /// at most once every `speed` nanoseconds, last changed at `now`.
    pub fn from_parts(screen_height: u32, pos_x: i32, speed: u32, now: u64, droplet: MatrixDroplet) -> (r: Self)
        requires
            screen_height <= MAX_LENGTH,
            1 <= pos_x <= MAX_LENGTH,
            droplet.wf(),
            droplet@.column == pos_x,
            !droplet@.tail_clear_of_top(),
            droplet@.head_row <= HEAD_LIMIT,
        ensures
            r.wf(),
            r@.droplets == seq![droplet@],
            r@.buffer == seq![' ', ' '],
            r@.column == pos_x,
            r@.speed == speed,
            r@.last_updated == now,
            r@.height == screen_height,
            !r@.dirty,
    {
        let mut droplets: VecDeque<MatrixDroplet> = VecDeque::new();
        droplets.push_back(droplet);
        let r = MatrixLine {
            buffer: [' ', ' '],
            droplets,
            pos_x,
            speed,
            last_updated: now,
            screen_height,
            should_draw: false,
        };
        assert(r@.droplets =~= seq![droplet@]);
        r
    }

    /// A column at horizontal position `pos_x` with one fresh droplet and a
    /// pace drawn between 38 and 60 milliseconds, last changed at `now`.
    pub fn new(screen_height: u32, pos_x: i32, now: u64, rng: &mut StdRng) -> (r: Self)
        requires
            screen_height <= MAX_LENGTH,
            1 <= pos_x <= MAX_LENGTH,
        ensures
            r.wf(),
            r@.droplets.len() == 1,
            MatrixDroplet::new_shape(r@.droplets[0], screen_height as int),
            r@.buffer == seq![' ', ' '],
            r@.column == pos_x,
            38 * NANOS_PER_MILLI <= r@.speed <= 60 * NANOS_PER_MILLI,
            r@.speed % (NANOS_PER_MILLI as int) == 0,
            r@.last_updated == now,
            r@.height == screen_height,
            !r@.dirty,
    {
        let droplet = MatrixDroplet::new(pos_x, screen_height, rng);
        let millis = random_in(rng, 38, 60);
        let speed = (millis as u32) * NANOS_PER_MILLI;
        Self::from_parts(screen_height, pos_x, speed, now, droplet)
    }

    /// Lets the column take one step at time `now` (nanoseconds on the
    /// caller's clock), if its pace allows: every droplet falls one row, the
    /// oldest is evicted once past the bottom, and a fresh droplet is added
    /// once the newest one has cleared the top. A step marks the column dirty
    /// and remembers `now`; otherwise nothing changes.
    pub fn update(&mut self, now: u64, codes: &[char], rng: &mut StdRng)
        requires
            old(self).wf(),
            codes@.len() > 0,
        ensures
            final(self).wf(),
            !old(self)@.due(now as int) ==> *final(self) == *old(self),
            old(self)@.stepped(final(self)@, now as int, codes@),
    {
        let elapsed: u64 = if now >= self.last_updated {
            now - self.last_updated
        } else {
            0
        };
        if elapsed < self.speed as u64 {
            return;
        }
        let ghost o = self@;
        self.advance_all(codes, rng);
        let ghost adv = self@.droplets;
        assert(adv.last() == o.droplets.last().advanced());
        proof {
            assert forall|i: int| 0 <= i < adv.len() implies (#[trigger] adv[i]).wf() && adv[i].column
                == o.column && adv[i].head_row <= HEAD_LIMIT + 1 by {
                assert(adv[i] == o.droplets[i].advanced());
                if i > 0 {
                    assert(o.droplets[0].head_row > o.droplets[i].head_row);
                }
            }
            assert(self.droplets@[0]@ == adv[0]);
        }
        if self.droplets[0].should_drop(self.screen_height) {
            self.droplets.pop_front();
            assert(self@.droplets =~= adv.drop_first());
        }
        let ghost kept = self@.droplets;
        assert(kept == o.kept());
        assert(kept.len() >= 1);
        assert(kept.last() == adv.last());
        let last = self.droplets.len() - 1;
        if self.droplets[last].touch_top() {
            let fresh = MatrixDroplet::new(self.pos_x, self.screen_height, rng);
            self.droplets.push_back(fresh);
            assert(self@.droplets =~= kept.push(fresh@));
        } else {
            assert(self@.droplets =~= kept);
        }
        assert(self@.droplets.subrange(0, kept.len() as int) =~= kept);
        self.should_draw = true;
        self.last_updated = now;
        assert(self@.droplets[0].head_row <= HEAD_LIMIT);
    }

    /// Moves every droplet one row down, oldest first, through the buffer.
    fn advance_all(&mut self, codes: &[char], rng: &mut StdRng)
        requires
            old(self).wf(),
            codes@.len() > 0,
        ensures
            final(self)@ == (LineView {
                droplets: advanced_all(old(self)@.droplets),
                buffer: final(self)@.buffer,
                ..old(self)@
            }),
            buffer_after(
                old(self)@.buffer,
                final(self)@.buffer,
                codes@,
                advanced_all(old(self)@.droplets),
                old(self)@.height,
            ),
    {
        let ghost o = self@;
        let ghost s0 = self.droplets@;
        let ghost adv = advanced_all(o.droplets);
        let n = self.droplets.len();
        let h = self.screen_height;
        let mut k: usize = 0;
        proof {
            assert forall|j: int| 0 <= j < n implies s0[j]@.head_row <= HEAD_LIMIT by {
                assert(o.droplets[j] == s0[j]@);
                if j > 0 {
                    assert(o.droplets[0].head_row > o.droplets[j].head_row);
                }
            }
            assert(adv.subrange(0, 0) =~= Seq::<DropletView>::empty());
        }
        while k < n
            invariant
                n == s0.len(),
                k <= n,
                h == o.height,
                o.wf(),
                o.droplets == s0.map_values(|d: MatrixDroplet| d@),
                adv == advanced_all(o.droplets),
                codes@.len() > 0,
                forall|j: int| 0 <= j < n ==> #[trigger] s0[j]@.head_row <= HEAD_LIMIT,
                self.droplets@.len() == n,
                forall|j: int| 0 <= j < n - k ==> self.droplets@[j] == s0[j + k],
                forall|j: int| n - k <= j < n ==> (#[trigger] self.droplets@[j])@ == adv[j - (n - k)],
                self@ == (LineView { droplets: self@.droplets, buffer: self@.buffer, ..o }),
                self.buffer@.len() == 2,
                buffer_after(o.buffer, self.buffer@, codes@, adv.subrange(0, k as int), o.height),
            decreases n - k,
        {
            let ghost before = self.buffer@;
            let ghost q = self.droplets@;
            let mut d = self.droplets.pop_front().unwrap();
            assert(d == s0[k as int]);
            assert(o.droplets[k as int] == d@);
            d.update(&mut self.buffer, codes, h, rng);
            self.droplets.push_back(d);
            proof {
                assert(adv[k as int] == d@);
                lemma_buffer_step(o.buffer, before, self.buffer@, codes@, adv.subrange(0, k as int), d@, o.height);
                assert(adv.subrange(0, k as int).push(d@) =~= adv.subrange(0, k as int + 1));
                assert forall|j: int| n - (k + 1) <= j < n implies (#[trigger] self.droplets@[j])@ == adv[j - (n - (k + 1))] by {
                    if j < n - 1 {
                        assert(self.droplets@[j] == q[j + 1]);
                    }
                }
            }
            k = k + 1;
        }
        proof {
            assert(self@.droplets =~= adv);
            assert(adv.subrange(0, n as int) =~= adv);
        }
    }

    /// The paints that show the column if it changed since it was last drawn,
    /// nothing otherwise; the column is then clean.
    pub fn draw(&mut self) -> (r: Vec<Paint>)
        requires
            old(self).wf(),
        ensures
            final(self).wf(),
            !old(self)@.dirty ==> r@.len() == 0 && *final(self) == *old(self),
            old(self)@.dirty ==> r@ == line_paints(
                old(self)@.droplets,
                old(self)@.buffer[0],
                old(self)@.buffer[1],
                old(self)@.height,
            ),
            final(self)@ == (LineView { dirty: false, ..old(self)@ }),
            forall|i: int| 0 <= i < r@.len() ==> paint_ok(#[trigger] r@[i]),
    {
        let mut out: Vec<Paint> = Vec::new();
        if !self.should_draw {
            return out;
        }
        let ghost v = self@;
        let n = self.droplets.len();
        let mut i: usize = 0;
        while i < n
            invariant
                v == self@,
                v.wf(),
                n == v.droplets.len(),
                i <= n,
                out@ == line_paints(v.droplets.subrange(0, i as int), v.buffer[0], v.buffer[1], v.height),
                forall|k: int| 0 <= k < out@.len() ==> paint_ok(#[trigger] out@[k]),
            decreases n - i,
        {
            assert(self.droplets@[i as int]@ == v.droplets[i as int]);
            let mut ps = self.droplets[i].draw(&self.buffer, self.screen_height);
            let ghost (prev, added) = (out@, ps@);
            out.append(&mut ps);
            proof {
                assert(v.droplets.subrange(0, i as int + 1).drop_last() =~= v.droplets.subrange(0, i as int));
                assert forall|k: int| 0 <= k < out@.len() implies paint_ok(#[trigger] out@[k]) by {
                    if k >= prev.len() {
                        assert(out@[k] == added[k - prev.len()]);
                    } else {
                        assert(out@[k] == prev[k]);
                    }
                }
            }
            i = i + 1;
        }
        assert(v.droplets.subrange(0, n as int) =~= v.droplets);
        self.should_draw = false;
        out
    }

    /// The column's pace: the least time between two changes, in nanoseconds.
    pub fn get_speed(&self) -> (r: u32)
        ensures
            r == self@.speed,
    {
        self.speed
    }

    /// Whether the column changed since it was last drawn.
    pub fn is_dirty(&self) -> (r: bool)
        ensures
            r == self@.dirty,
    {
        self.should_draw
    }

    pub fn droplet_count(&self) -> (r: usize)
        ensures
            r == self@.droplets.len(),
    {
        self.droplets.len()
    }

    /// The droplet at place `i` of the queue, oldest first.
    pub fn droplet(&self, i: usize) -> (r: Option<MatrixDroplet>)
        ensures
            i < self@.droplets.len() ==> r.is_some() && r.unwrap()@ == self@.droplets[i as int],
            i >= self@.droplets.len() ==> r.is_none(),
    {
        if i < self.droplets.len() {
            Some(self.droplets[i])
        } else {
            None
        }
    }

    /// The glyph cell `index` of the column: 0 behind the head, 1 the head.
    pub fn cell(&self, index: usize) -> (r: Option<char>)
        ensures
            index < 2 ==> r == Some(self@.buffer[index as int]),
            index >= 2 ==> r.is_none(),
    {
        if index < 2 {
            Some(self.buffer[index])
        } else {
            None
        }
    }
}

} // verus!
