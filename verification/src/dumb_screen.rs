//! Settings of the plain terminal renderer.
//!
//! The rendering itself is I/O and lives with the program around this
//! library; only its configuration is kept here.

use vstd::prelude::*;

verus! {

/// How the terminal renderer behaves: `dumb` skips the screen-clearing
/// escape codes, `reverse_video` swaps the stone glyphs for dark
/// terminals.
pub struct DumbScreen {
    pub dumb: bool,
    pub reverse_video: bool,
}

impl DumbScreen {
    pub fn new(dumb: bool, reverse_video: bool) -> (r: Self)
        ensures
            r.dumb == dumb,
            r.reverse_video == reverse_video,
    {
        DumbScreen { dumb, reverse_video }
    }
}

} // verus!
