//! One falling streak in a column: a head row, a lit body behind it and a
//! dark gap behind the body.

use rand::rngs::StdRng;
use vstd::prelude::*;

use crate::paint::{Ink, Paint};
use crate::random::{random_glyph, random_in};

verus! {

/// The largest body or gap length a droplet may have; a terminal is never
/// taller than this.
pub const MAX_LENGTH: i32 = 65535;

/// The mathematical state of a droplet.
pub struct DropletView {
    pub column: int,
    pub head_row: int,
    pub body_length: int,
    pub gap_length: int,
}

impl DropletView {
    pub open spec fn wf(self) -> bool {
        &&& 1 <= self.body_length <= MAX_LENGTH
        &&& 0 <= self.gap_length <= MAX_LENGTH
        &&& i32::MIN <= self.head_row <= i32::MAX
        &&& i32::MIN <= self.column <= i32::MAX
    }

    /// Body and gap together: how far the head must fall before the column
    /// above the droplet is free again.
    pub open spec fn span(self) -> int {
        self.body_length + self.gap_length
    }

    pub open spec fn tail_clear_of_top(self) -> bool {
        self.span() <= self.head_row
    }

    pub open spec fn past_bottom(self, height: int) -> bool {
        self.head_row - height > self.span()
    }

    /// The same droplet, one row further down.
    pub open spec fn advanced(self) -> DropletView {
        DropletView { head_row: self.head_row + 1, ..self }
    }
}

#[derive(Clone, Copy, Debug, PartialEq, Eq, Structural)]
pub struct MatrixDroplet {
    filled: i32,
    empty: i32,
    pos_x: i32,
    pos_y: i32,
}

impl View for MatrixDroplet {
    type V = DropletView;

    closed spec fn view(&self) -> DropletView {
        DropletView {
            column: self.pos_x as int,
            head_row: self.pos_y as int,
            body_length: self.filled as int,
            gap_length: self.empty as int,
        }
    }
}

/// What a droplet's advance does to the column's two-cell buffer (the cell
/// behind the head, then the head cell): on a visible head row the head glyph
/// moves back one cell and a glyph of `codes` takes its place.
pub open spec fn advanced_buffer(
    before: Seq<char>,
    after: Seq<char>,
    codes: Seq<char>,
    head_row: int,
    height: int,
) -> bool {
    if 0 <= head_row < height {
        &&& after.len() == 2
        &&& after[0] == before[1]
        &&& codes.contains(after[1])
    } else {
        after == before
    }
}

/// The paints that show droplet `d` on a screen `h` rows tall, with the glyph
/// `lead` at its head and `behind` in the cell behind it: a blank where
/// the body ended (while that row is on the screen), the glyph behind the
/// head on the head row, and the head glyph one row below. Rows are 1-based,
/// so head row `r` is drawn on screen row `r + 1`.
pub open spec fn droplet_paints(d: DropletView, behind: char, lead: char, h: int) -> Seq<Paint> {
    if d.head_row < 0 {
        Seq::empty()
    } else {
        blank_paint(d, h) + body_paint(d, behind, h) + head_paint(d, lead, h)
    }
}

pub open spec fn blank_paint(d: DropletView, h: int) -> Seq<Paint> {
    if d.head_row > d.body_length && d.head_row - d.body_length <= h {
        seq![
            Paint {
                col: d.column as u16,
                row: (d.head_row - d.body_length) as u16,
                ink: Ink::Blank,
                glyph: ' ',
            },
        ]
    } else {
        Seq::empty()
    }
}

pub open spec fn body_paint(d: DropletView, glyph: char, h: int) -> Seq<Paint> {
    if 0 < d.head_row && d.head_row <= h {
        Seq::empty().push(
            Paint { col: d.column as u16, row: d.head_row as u16, ink: Ink::Body, glyph: glyph },
        )
    } else {
        Seq::empty()
    }
}

pub open spec fn head_paint(d: DropletView, glyph: char, h: int) -> Seq<Paint> {
    if d.head_row < h {
        seq![Paint { col: d.column as u16, row: (d.head_row + 1) as u16, ink: Ink::Head, glyph }]
    } else {
        Seq::empty()
    }
}

/// Every paint of an on-screen column names a real cell.
proof fn lemma_paints_ok(d: DropletView, behind: char, lead: char, h: int)
    requires
        1 <= d.column <= MAX_LENGTH,
        0 <= h <= MAX_LENGTH,
        1 <= d.body_length,
    ensures
        forall|i: int|
            0 <= i < droplet_paints(d, behind, lead, h).len() ==> crate::paint::paint_ok(
                #[trigger] droplet_paints(d, behind, lead, h)[i],
            ),
{
    let ps = droplet_paints(d, behind, lead, h);
    assert forall|i: int| 0 <= i < ps.len() implies crate::paint::paint_ok(#[trigger] ps[i]) by {
        let a = blank_paint(d, h);
        let b = body_paint(d, behind, h);
        let c = head_paint(d, lead, h);
        if d.head_row >= 0 {
            assert(ps == a + b + c);
            if i < a.len() {
                assert(ps[i] == a[i]);
            } else if i < a.len() + b.len() {
                assert(ps[i] == b[i - a.len()]);
            } else {
                assert(ps[i] == c[i - a.len() - b.len()]);
            }
        }
    }
}

impl MatrixDroplet {
    pub open spec fn wf(&self) -> bool {
        self@.wf()
    }

    /// A droplet with the given shape and position.
    pub fn from_parts(column: i32, head_row: i32, body_length: i32, gap_length: i32) -> (r: Self)
        requires
            1 <= body_length <= MAX_LENGTH,
            0 <= gap_length <= MAX_LENGTH,
        ensures
            r@ == (DropletView {
                column: column as int,
                head_row: head_row as int,
                body_length: body_length as int,
                gap_length: gap_length as int,
            }),
            r.wf(),
    {
        MatrixDroplet { filled: body_length, empty: gap_length, pos_x: column, pos_y: head_row }
    }

    /// A fresh droplet for a column of a screen `screen_height` rows tall: its
    /// body is half to all of the height long (at least one cell), its gap a
    /// third to a half of it, and its head starts up to half the height above
    /// the top row.
    pub fn new(pos_x: i32, screen_height: u32, rng: &mut StdRng) -> (r: Self)
        requires
            screen_height <= MAX_LENGTH,
        ensures
            r.wf(),
            r@.column == pos_x,
            Self::new_shape(r@, screen_height as int),
    {
        let h = screen_height as i32;
        let low_body = if h / 2 < 1 { 1 } else { h / 2 };
        let high_body = if h < 1 { 1 } else { h };
        let filled = random_in(rng, low_body, high_body);
        let empty = random_in(rng, h / 3, h / 2);
        let lift = random_in(rng, 0, h / 2);
        MatrixDroplet { filled, empty, pos_x, pos_y: -lift }
    }

    /// The shapes and start rows that `new` draws from.
    pub open spec fn new_shape(d: DropletView, h: int) -> bool {
        &&& (if h / 2 < 1 { 1 } else { h / 2 }) <= d.body_length <= (if h < 1 { 1 } else { h })
        &&& h / 3 <= d.gap_length <= h / 2
        &&& -(h / 2) <= d.head_row <= 0
    }

    /// Whether the droplet has fallen far enough, body and gap, that another
    /// one may start above it.
    pub fn touch_top(&self) -> (r: bool)
        requires
            self.wf(),
        ensures
            r == self@.tail_clear_of_top(),
    {
        self.filled + self.empty <= self.pos_y
    }

    /// Whether the droplet, body and gap, has left the bottom of a screen
    /// `screen_height` rows tall by a margin of its own length.
    pub fn should_drop(&self, screen_height: u32) -> (r: bool)
        requires
            self.wf(),
        ensures
            r == self@.past_bottom(screen_height as int),
    {
        (self.pos_y as i64) - (screen_height as i64) > (self.filled as i64) + (self.empty as i64)
    }

    /// Moves the head one row down. Returns whether the head is now at or
    /// below the top row; only then is the buffer touched, and only while the
    /// head is on the screen.
    pub fn update(
        &mut self,
        buffer: &mut [char; 2],
        codes: &[char],
        screen_height: u32,
        rng: &mut StdRng,
    ) -> (changed: bool)
        requires
            old(self).wf(),
            old(self)@.head_row < i32::MAX,
            codes@.len() > 0,
        ensures
            final(self).wf(),
            final(self)@ == old(self)@.advanced(),
            changed == (final(self)@.head_row >= 0),
            advanced_buffer(
                old(buffer)@,
                final(buffer)@,
                codes@,
                final(self)@.head_row,
                screen_height as int,
            ),
    {
        self.pos_y = self.pos_y + 1;
        if self.pos_y < 0 {
            return false;
        }
        if (self.pos_y as u32) < screen_height {
            let glyph = random_glyph(rng, codes);
            *buffer = [buffer[1], glyph];
        }
        true
    }

    /// The paints that show this droplet; see `droplet_paints`.
    pub fn draw(&self, buffer: &[char; 2], screen_height: u32) -> (r: Vec<Paint>)
        requires
            self.wf(),
            1 <= self@.column <= MAX_LENGTH,
            screen_height <= MAX_LENGTH,
        ensures
            r@ == droplet_paints(self@, buffer@[0], buffer@[1], screen_height as int),
            forall|i: int| 0 <= i < r@.len() ==> crate::paint::paint_ok(#[trigger] r@[i]),
    {
        let mut out: Vec<Paint> = Vec::new();
        if self.pos_y >= 0 {
            let h = screen_height as i32;
            let col = self.pos_x as u16;
            if self.pos_y > self.filled && self.pos_y - self.filled <= h {
                out.push(
                    Paint {
                        col,
                        row: (self.pos_y - self.filled) as u16,
                        ink: Ink::Blank,
                        glyph: ' ',
                    },
                );
            }
            let mut rest = self.glyph_paints(buffer[0], buffer[1], screen_height);
            out.append(&mut rest);
        }
        proof {
            lemma_paints_ok(self@, buffer@[0], buffer@[1], screen_height as int);
        }
        out
    }

    fn glyph_paints(&self, behind: char, lead: char, screen_height: u32) -> (r: Vec<Paint>)
        requires
            self.wf(),
            0 <= self@.head_row,
            1 <= self@.column <= MAX_LENGTH,
            screen_height <= MAX_LENGTH,
        ensures
            r@ == body_paint(self@, behind, screen_height as int) + head_paint(
                self@,
                lead,
                screen_height as int,
            ),
    {
        let mut out: Vec<Paint> = Vec::new();
        let h = screen_height as i32;
        let col = self.pos_x as u16;
        if 0 < self.pos_y && self.pos_y <= h {
            out.push(Paint { col, row: self.pos_y as u16, ink: Ink::Body, glyph: behind });
        }
        if self.pos_y < h {
            out.push(Paint { col, row: (self.pos_y + 1) as u16, ink: Ink::Head, glyph: lead });
        }
        assert(out@ =~= body_paint(self@, behind, screen_height as int) + head_paint(
            self@,
            lead,
            screen_height as int,
        ));
        out
    }

    pub fn head_row(&self) -> (r: i32)
        ensures
            r == self@.head_row,
    {
        self.pos_y
    }

    pub fn body_length(&self) -> (r: i32)
        ensures
            r == self@.body_length,
    {
        self.filled
    }

    pub fn gap_length(&self) -> (r: i32)
        ensures
            r == self@.gap_length,
    {
        self.empty
    }

    pub fn column(&self) -> (r: i32)
        ensures
            r == self@.column,
    {
        self.pos_x
    }
}

} // verus!
