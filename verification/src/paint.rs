//! What the styles of a frame need to know: the number of colors of the
//! terminal. The viewer makes one [`Paint`] value for each frame, so each
//! function that makes a style needs one argument less.

use vstd::prelude::*;

use crate::colors::{conv, Depth, Rgb, TermColor};

verus! {

/// Makes the colors of a style from the colors of a theme.
#[derive(Clone, Copy, Debug, PartialEq, Eq, Structural)]
pub struct Paint {
    /// The number of colors that the terminal can show.
    pub depth: Depth,
}

impl Paint {
    /// Makes a `Paint` value for a terminal.
    pub fn new(depth: Depth) -> (r: Paint)
        ensures
            r.depth == depth,
    {
        Paint { depth }
    }

    /// Gives the color of the terminal for a color of a theme.
    pub fn color(&self, c: Rgb) -> (r: TermColor)
        ensures
            r == match self.depth {
                Depth::True => TermColor::Rgb(c.r, c.g, c.b),
                Depth::Indexed256 => TermColor::Indexed(crate::colors::xterm_index(c) as u8),
            },
    {
        conv(c, self.depth)
    }
}

} // verus!
