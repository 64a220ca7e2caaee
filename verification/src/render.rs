//! The grid as text for a terminal with 24-bit colour: for each cell the
//! sequence that sets its foreground, the one that sets its background and
//! its glyph; after each row the sequence that resets the style, and a line
//! break.

use crate::grid::{Cell, Image, Pixel};
use vstd::prelude::*;
use vstd::string::StringExecFns;

verus! {

/// The character of the decimal digit `d`.
pub open spec fn digit(d: int) -> char {
    if d == 0 {
        '0'
    } else if d == 1 {
        '1'
    } else if d == 2 {
        '2'
    } else if d == 3 {
        '3'
    } else if d == 4 {
        '4'
    } else if d == 5 {
        '5'
    } else if d == 6 {
        '6'
    } else if d == 7 {
        '7'
    } else if d == 8 {
        '8'
    } else {
        '9'
    }
}

/// `n` in decimal digits, without leading zeros.
pub open spec fn decimal(n: nat) -> Seq<char>
    decreases n,
{
    if n < 10 {
        seq![digit(n as int)]
    } else {
        decimal(n / 10).push(digit((n % 10) as int))
    }
}

/// The three channels in decimal, separated by semicolons and closed by `m`.
pub open spec fn channels_text(r: u8, g: u8, b: u8) -> Seq<char> {
    decimal(r as nat) + seq![';'] + decimal(g as nat) + seq![';'] + decimal(b as nat) + seq!['m']
}

/// The sequence that sets the foreground to the given colour.
pub open spec fn fg_text(r: u8, g: u8, b: u8) -> Seq<char> {
    seq!['\x1b', '[', '3', '8', ';', '2', ';'] + channels_text(r, g, b)
}

/// The sequence that sets the background to the given colour.
pub open spec fn bg_text(r: u8, g: u8, b: u8) -> Seq<char> {
    seq!['\x1b', '[', '4', '8', ';', '2', ';'] + channels_text(r, g, b)
}

/// The sequence that resets the style.
pub open spec fn reset_text() -> Seq<char> {
    seq!['\x1b', '[', 'm']
}

/// A channel scaled by the alpha of its colour, rounded towards zero.
pub open spec fn premultiplied(channel: u8, alpha: u8) -> u8 {
    ((channel * alpha) / 255) as u8
}

/// The text of one cell.
pub open spec fn cell_text(cell: Cell) -> Seq<char> {
    fg_text(
        premultiplied(cell.fg[0], cell.fg[3]),
        premultiplied(cell.fg[1], cell.fg[3]),
        premultiplied(cell.fg[2], cell.fg[3]),
    ) + bg_text(
        premultiplied(cell.bg[0], cell.bg[3]),
        premultiplied(cell.bg[1], cell.bg[3]),
        premultiplied(cell.bg[2], cell.bg[3]),
    ) + seq![cell.ch]
}

/// The text of the first `n` cells of row `y` in a grid `w` cells wide.
pub open spec fn row_text(cells: Seq<Pixel>, w: int, y: int, n: nat) -> Seq<char>
    decreases n,
{
    if n == 0 {
        Seq::empty()
    } else {
        row_text(cells, w, y, (n - 1) as nat) + cell_text(cells[y * w + n - 1]@)
    }
}

/// The text of the first `rows` rows of a grid `w` cells wide, each row
/// followed by the reset sequence and a line break.
pub open spec fn grid_text(cells: Seq<Pixel>, w: int, rows: nat) -> Seq<char>
    decreases rows,
{
    if rows == 0 {
        Seq::empty()
    } else {
        grid_text(cells, w, (rows - 1) as nat) + row_text(cells, w, rows - 1, w as nat)
            + reset_text() + seq!['\r', '\n']
    }
}

/// Formats `termion::color::Fg` of a `termion::color::Rgb`: the escape
/// character, `[38;2;`, the three channels in decimal with semicolons
/// between them, and `m`.
#[verifier::external_body]
fn fg_sequence(r: u8, g: u8, b: u8) -> (s: String)
    ensures
        s@ == fg_text(r, g, b),
{
    format!("{}", termion::color::Fg(termion::color::Rgb(r, g, b)))
}

/// Formats `termion::color::Bg` of a `termion::color::Rgb`: as the
/// foreground, with `[48;2;` in place of `[38;2;`.
#[verifier::external_body]
fn bg_sequence(r: u8, g: u8, b: u8) -> (s: String)
    ensures
        s@ == bg_text(r, g, b),
{
    format!("{}", termion::color::Bg(termion::color::Rgb(r, g, b)))
}

/// Formats `termion::style::Reset`: the escape character, `[` and `m`.
#[verifier::external_body]
fn reset_sequence() -> (s: String)
    ensures
        s@ == reset_text(),
{
    format!("{}", termion::style::Reset)
}

/// `String::push` appends the character to the string.
pub assume_specification[ String::push ](s: &mut String, ch: char)
    ensures
        final(s)@ == old(s)@.push(ch),
;

fn scale(channel: u8, alpha: u8) -> (c: u8)
    ensures
        c == premultiplied(channel, alpha),
{
    assert(channel * alpha <= 255 * 255) by (nonlinear_arith)
        requires
            0 <= channel <= 255,
            0 <= alpha <= 255,
    ;
    let product: u32 = channel as u32 * alpha as u32;
    (product / 255) as u8
}

/// The red, green and blue channel of `pixel`, each scaled by its alpha.
pub fn rgb(pixel: &[u8; 4]) -> (c: (u8, u8, u8))
    ensures
        c.0 == premultiplied(pixel[0], pixel[3]),
        c.1 == premultiplied(pixel[1], pixel[3]),
        c.2 == premultiplied(pixel[2], pixel[3]),
{
    (scale(pixel[0], pixel[3]), scale(pixel[1], pixel[3]), scale(pixel[2], pixel[3]))
}

impl Pixel {
    /// The text of the cell: foreground, background, glyph.
    pub fn render(&self) -> (s: String)
        ensures
            s@ == cell_text(self@),
    {
        let fg = rgb(&self.fg);
        let bg = rgb(&self.bg);
        let mut s = fg_sequence(fg.0, fg.1, fg.2);
        let back = bg_sequence(bg.0, bg.1, bg.2);
        s.append(back.as_str());
        s.push(self.ch);
        s
    }
}

impl Image {
    /// The text of the whole grid, row by row from the top.
    pub fn render(&self) -> (s: String)
        requires
            self.wf(),
        ensures
            s@ == grid_text(self.pixels@, self.size.0 as int, self.size.1 as nat),
    {
        let (w, h) = self.size;
        let mut s = String::new();
        let mut y: u32 = 0;
        while y < h
            invariant
                self.wf(),
                (w, h) == self.size,
                y <= h,
                s@ == grid_text(self.pixels@, w as int, y as nat),
            decreases h - y,
        {
            let ghost above = s@;
            let mut x: u32 = 0;
            while x < w
                invariant
                    self.wf(),
                    (w, h) == self.size,
                    y < h,
                    x <= w,
                    s@ == above + row_text(self.pixels@, w as int, y as int, x as nat),
                decreases w - x,
            {
                let cell = self[(x, y)].render();
                s.append(cell.as_str());
                proof {
                    assert(s@ =~= above + row_text(
                        self.pixels@,
                        w as int,
                        y as int,
                        (x + 1) as nat,
                    ));
                }
                x = x + 1;
            }
            let reset = reset_sequence();
            s.append(reset.as_str());
            s.push('\r');
            s.push('\n');
            proof {
                assert(s@ =~= grid_text(self.pixels@, w as int, (y + 1) as nat));
            }
            y = y + 1;
        }
        s
    }
}

} // verus!
