//! Draw commands for one terminal cell, and the terminal text that carries
//! them out: a cursor move, then a colour and a glyph, or a blank.

use termion::{color, cursor};
use vstd::prelude::*;

verus! {

/// How a cell is painted.
#[derive(PartialEq, Eq, Structural, Clone, Copy, Debug)]
pub enum Ink {
    /// Two blank cells: the trail behind a body is wiped.
    Blank,
    /// A body glyph, in green.
    Body,
    /// The leading glyph, in white.
    Head,
}

/// One positioned write: the 1-based column and row, the ink, and the glyph
/// (unused for a blank).
#[derive(PartialEq, Eq, Structural, Clone, Copy, Debug)]
pub struct Paint {
    pub col: u16,
    pub row: u16,
    pub ink: Ink,
    pub glyph: char,
}

pub open spec fn digit(d: nat) -> char {
    seq!['0', '1', '2', '3', '4', '5', '6', '7', '8', '9'][d as int]
}

/// The decimal digits of `n`, without leading zeros.
pub open spec fn decimal(n: nat) -> Seq<char>
    decreases n,
{
    if n < 10 {
        seq![digit(n)]
    } else {
        decimal(n / 10).push(digit(n % 10))
    }
}

/// The escape sequence that moves the cursor to a 1-based column and row.
pub open spec fn goto_seq(col: nat, row: nat) -> Seq<char> {
    seq!['\x1b', '['] + decimal(row) + seq![';'] + decimal(col) + seq!['H']
}

/// The escape sequence that selects colour `code` of the 256-colour palette
/// for the foreground, `code` being a single digit.
pub open spec fn fg_seq(code: char) -> Seq<char> {
    seq!['\x1b', '[', '3', '8', ';', '5', ';', code, 'm']
}

/// The terminal text that carries out one paint.
pub open spec fn paint_text(p: Paint) -> Seq<char> {
    goto_seq(p.col as nat, p.row as nat) + match p.ink {
        Ink::Blank => seq![' ', ' '],
        Ink::Body => fg_seq('2') + seq![p.glyph, ' '],
        Ink::Head => fg_seq('7') + seq![p.glyph, ' '],
    }
}

/// The terminal text that carries out a sequence of paints, in order.
pub open spec fn paints_text(ps: Seq<Paint>) -> Seq<char>
    decreases ps.len(),
{
    if ps.len() == 0 {
        Seq::empty()
    } else {
        paints_text(ps.drop_last()) + paint_text(ps.last())
    }
}

/// A paint may be carried out when it names a real cell.
pub open spec fn paint_ok(p: Paint) -> bool {
    p.col >= 1 && p.row >= 1
}

/// Relies on the `Display` of termion's `cursor::Goto(col, row)`: it writes
/// `ESC [ row ; col H` with both numbers in decimal, and asserts in debug
/// builds that the two are not both zero.
#[verifier::external_body]
fn goto_text(col: u16, row: u16) -> (r: String)
    requires
        col != 0 || row != 0,
    ensures
        r@ == goto_seq(col as nat, row as nat),
{
    format!("{}", cursor::Goto(col, row))
}

/// Relies on termion's `color::Green.fg_str()`: the sequence for palette
/// colour 2 in the foreground.
#[verifier::external_body]
fn green_fg() -> (r: &'static str)
    ensures
        r@ == fg_seq('2'),
{
    color::Green.fg_str()
}

/// Relies on termion's `color::White.fg_str()`: the sequence for palette
/// colour 7 in the foreground.
#[verifier::external_body]
fn white_fg() -> (r: &'static str)
    ensures
        r@ == fg_seq('7'),
{
    color::White.fg_str()
}

/// Relies on std's `String::push`: the character is appended at the end.
#[verifier::external_body]
fn push_char(s: &mut String, c: char)
    ensures
        final(s)@ == old(s)@.push(c),
{
    s.push(c)
}

/// Appends the terminal text of one paint to `out`.
pub fn write_paint(out: &mut String, p: &Paint)
    requires
        paint_ok(*p),
    ensures
        final(out)@ == old(out)@ + paint_text(*p),
{
    let g = goto_text(p.col, p.row);
    out.append(g.as_str());
    match p.ink {
        Ink::Blank => {
            push_char(out, ' ');
            push_char(out, ' ');
        },
        Ink::Body => {
            out.append(green_fg());
            push_char(out, p.glyph);
            push_char(out, ' ');
        },
        Ink::Head => {
            out.append(white_fg());
            push_char(out, p.glyph);
            push_char(out, ' ');
        },
    }
    assert(final(out)@ =~= old(out)@ + paint_text(*p));
}

/// The terminal text of a sequence of paints.
pub fn render_paints(ps: &Vec<Paint>) -> (r: String)
    requires
        forall|i: int| 0 <= i < ps@.len() ==> paint_ok(#[trigger] ps@[i]),
    ensures
        r@ == paints_text(ps@),
{
    let mut out = String::new();
    let mut i: usize = 0;
    while i < ps.len()
        invariant
            i <= ps@.len(),
            forall|k: int| 0 <= k < ps@.len() ==> paint_ok(#[trigger] ps@[k]),
            out@ == paints_text(ps@.subrange(0, i as int)),
        decreases ps@.len() - i,
    {
        write_paint(&mut out, &ps[i]);
        assert(ps@.subrange(0, i as int + 1).drop_last() =~= ps@.subrange(0, i as int));
        i = i + 1;
    }
    assert(ps@.subrange(0, ps@.len() as int) =~= ps@);
    out
}

} // verus!
