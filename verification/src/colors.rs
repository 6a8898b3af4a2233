//! Changes the colors of a theme into the colors of a terminal.
//!
//! Some terminals cannot show 24-bit color: an old terminal, a session with
//! `TERM=xterm-256color`, some shells of a build system. On such a terminal the
//! viewer changes each color to the nearest color of the xterm-256 set.
//! Without that change, the colors look weak.

use vstd::prelude::*;

use crate::chars::{ascii_lower_chars, ascii_lowered, chars_of, contains_chars, holds_text};

verus! {

/// A color of a theme: the levels of red, green and blue.
#[derive(Clone, Copy, Debug, PartialEq, Eq, Structural)]
pub struct Rgb {
    pub r: u8,
    pub g: u8,
    pub b: u8,
}

/// The number of colors that the terminal can show.
#[derive(Clone, Copy, Debug, PartialEq, Eq, Structural)]
pub enum Depth {
    /// The terminal can show 24-bit color.
    True,
    /// The terminal can show the 256 colors of the xterm set.
    Indexed256,
}

/// A color of the terminal: a 24-bit color or a number of the xterm-256 set.
#[derive(Clone, Copy, Debug, PartialEq, Eq, Structural)]
pub enum TermColor {
    /// A 24-bit color.
    Rgb(u8, u8, u8),
    /// A color of the xterm-256 set.
    Indexed(u8),
}

/// Whether the environment of the program says that the terminal shows
/// 24-bit color.
///
/// `colorterm` is the value of `COLORTERM`, `wt_session` says that
/// `WT_SESSION` is set (Windows Terminal sets it and not `COLORTERM`), `term`
/// is the value of `TERM`, and `term_set` says that `TERM` is set at all. On
/// Windows, each console that runs the program reads the escape sequences of a
/// terminal, so a missing `TERM` means 24-bit color there.
pub open spec fn true_color(
    colorterm: Option<Seq<char>>,
    wt_session: bool,
    term: Option<Seq<char>>,
    term_set: bool,
    windows: bool,
) -> bool {
    ||| (colorterm matches Some(v) && (holds_text(ascii_lowered(v), "truecolor"@) || holds_text(
        ascii_lowered(v),
        "24bit"@,
    )))
    ||| wt_session
    ||| (term matches Some(t) && holds_text(t, "direct"@))
    ||| (windows && !term_set)
}

impl Depth {
    /// Finds the number of colors of the terminal from the values of its
    /// environment variables.
    pub fn of_terminal(
        colorterm: Option<&str>,
        wt_session: bool,
        term: Option<&str>,
        term_set: bool,
        windows: bool,
    ) -> (r: Depth)
        ensures
            (r == Depth::True) == true_color(
                match colorterm {
                    Some(v) => Some(v@),
                    None => None,
                },
                wt_session,
                match term {
                    Some(t) => Some(t@),
                    None => None,
                },
                term_set,
                windows,
            ),
    {
        if let Some(v) = colorterm {
            let low = ascii_lower_chars(v);
            let a = chars_of("truecolor");
            let b = chars_of("24bit");
            if contains_chars(&low, &a) || contains_chars(&low, &b) {
                return Depth::True;
            }
        }
        if wt_session {
            return Depth::True;
        }
        if let Some(t) = term {
            let tc = chars_of(t);
            let d = chars_of("direct");
            if contains_chars(&tc, &d) {
                return Depth::True;
            }
        }
        if windows && !term_set {
            return Depth::True;
        }
        Depth::Indexed256
    }
}

/// The levels of a channel in the color cube of the xterm-256 set. The
/// distance between two steps is not always the same.
pub open spec fn cube_level(i: int) -> int {
    if i == 0 {
        0
    } else {
        55 + 40 * i
    }
}

/// The distance between two levels of a channel.
pub open spec fn dist(a: int, b: int) -> int {
    if a >= b { a - b } else { b - a }
}

/// The step of the cube nearest to a level; between two steps at the same
/// distance, the lower one.
pub open spec fn nearest_step(v: int) -> int {
    if v <= 47 {
        0
    } else if v <= 115 {
        1
    } else if v <= 155 {
        2
    } else if v <= 195 {
        3
    } else if v <= 235 {
        4
    } else {
        5
    }
}

/// The number of the xterm-256 set nearest to a color: a color with less than
/// ten levels between its largest and its smallest channel is a gray, and it
/// takes the black or the white of the cube at the ends, or one of the 24
/// grays; each other color takes the nearest step of the cube on each
/// channel.
pub open spec fn xterm_index(c: Rgb) -> int {
    let hi = if c.r >= c.g && c.r >= c.b { c.r } else if c.g >= c.b { c.g } else { c.b };
    let lo = if c.r <= c.g && c.r <= c.b { c.r } else if c.g <= c.b { c.g } else { c.b };
    if hi - lo < 10 {
        let level = (c.r + c.g + c.b) / 3;
        if level < 8 {
            16
        } else if level > 248 {
            231
        } else {
            let g = 232 + (level - 8) * 24 / 240;
            if g > 255 { 255 } else { g }
        }
    } else {
        16 + 36 * nearest_step(c.r as int) + 6 * nearest_step(c.g as int) + nearest_step(c.b as int)
    }
}

/// Gives the step of the cube nearest to a level.
///
/// The loop walks the six steps and keeps the first one at the smallest
/// distance.
fn nearest(v: u8) -> (r: u8)
    ensures
        r == nearest_step(v as int),
        r < 6,
        forall|k: int| 0 <= k < 6 ==> dist(v as int, cube_level(r as int)) <= dist(v as int, cube_level(k)),
{
    let levels: [u8; 6] = [0, 95, 135, 175, 215, 255];
    let mut best: u8 = 0;
    let mut best_d: u16 = u16::MAX;
    let mut i: usize = 0;
    while i < 6
        invariant
            i <= 6,
            levels@ == seq![0u8, 95u8, 135u8, 175u8, 215u8, 255u8],
            i == 0 ==> best_d == u16::MAX,
            i > 0 ==> best < i && best_d == dist(v as int, cube_level(best as int)),
            forall|k: int| 0 <= k < i ==> dist(v as int, cube_level(best as int)) <= dist(v as int, cube_level(k)),
            forall|k: int| 0 <= k < best ==> dist(v as int, cube_level(k)) > dist(v as int, cube_level(best as int)),
        decreases 6 - i,
    {
        let l = levels[i];
        assert(l as int == cube_level(i as int));
        let d: u16 = if v >= l { (v - l) as u16 } else { (l - v) as u16 };
        if d < best_d {
            best_d = d;
            best = i as u8;
        }
        i += 1;
    }
    proof {
        let b = best as int;
        let x = v as int;
        assert(dist(x, cube_level(b)) <= dist(x, cube_level(0)));
        assert(dist(x, cube_level(b)) <= dist(x, cube_level(1)));
        assert(dist(x, cube_level(b)) <= dist(x, cube_level(2)));
        assert(dist(x, cube_level(b)) <= dist(x, cube_level(3)));
        assert(dist(x, cube_level(b)) <= dist(x, cube_level(4)));
        assert(dist(x, cube_level(b)) <= dist(x, cube_level(5)));
        if b > 0 { assert(dist(x, cube_level(0)) > dist(x, cube_level(b))); }
        if b > 1 { assert(dist(x, cube_level(1)) > dist(x, cube_level(b))); }
        if b > 2 { assert(dist(x, cube_level(2)) > dist(x, cube_level(b))); }
        if b > 3 { assert(dist(x, cube_level(3)) > dist(x, cube_level(b))); }
        if b > 4 { assert(dist(x, cube_level(4)) > dist(x, cube_level(b))); }
    }
    best
}

/// Gives the nearest color of the xterm-256 set.
///
/// A gray color uses the group of 24 grays. That group has more steps than the
/// cube of 6 by 6 by 6 colors, and it therefore gives a better gray.
pub fn to_256(c: Rgb) -> (r: u8)
    ensures
        r == xterm_index(c),
{
    let hi = if c.r >= c.g && c.r >= c.b { c.r } else if c.g >= c.b { c.g } else { c.b };
    let lo = if c.r <= c.g && c.r <= c.b { c.r } else if c.g <= c.b { c.g } else { c.b };
    if hi - lo < 10 {
        let level: u16 = (c.r as u16 + c.g as u16 + c.b as u16) / 3;
        if level < 8 {
            return 16;
        }
        if level > 248 {
            return 231;
        }
        let g: u16 = 232 + (level - 8) * 24 / 240;
        return if g > 255 { 255 } else { g as u8 };
    }
    let qr = nearest(c.r);
    let qg = nearest(c.g);
    let qb = nearest(c.b);
    16 + 36 * qr + 6 * qg + qb
}

/// Changes one color of a theme into a color of the terminal.
pub fn conv(c: Rgb, depth: Depth) -> (r: TermColor)
    ensures
        r == match depth {
            Depth::True => TermColor::Rgb(c.r, c.g, c.b),
            Depth::Indexed256 => TermColor::Indexed(xterm_index(c) as u8),
        },
{
    match depth {
        Depth::True => TermColor::Rgb(c.r, c.g, c.b),
        Depth::Indexed256 => TermColor::Indexed(to_256(c)),
    }
}

} // verus!
