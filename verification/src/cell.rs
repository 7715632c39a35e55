//! The character cell: what one position of a row holds.

use vstd::prelude::*;
use vstd::std_specs::convert::FromSpecImpl;

verus! {

/// One character of the text with its display attributes. The attributes
/// travel with the character; no editing operation reads them.
#[derive(Copy, Clone, Debug, PartialEq, Eq, Structural)]
pub struct CharCel {
    pub char: char,
    pub fg_on: bool,
    pub bg_on: bool,
    pub fg: u16,
    pub bg: u16,
}

impl CharCel {
    /// The cell that holds `c` with no attribute set.
    pub open spec fn plain(c: char) -> CharCel {
        CharCel { char: c, fg_on: false, bg_on: false, fg: 0, bg: 0 }
    }

    /// The cell that stands for the end of a row in linear text.
    pub open spec fn line_break() -> CharCel {
        CharCel::plain('\n')
    }
}

impl Default for CharCel {
    fn default() -> (c: CharCel)
        ensures
            c == CharCel::plain('0'),
    {
        CharCel { char: '0', fg_on: false, bg_on: false, fg: 0, bg: 0 }
    }
}

impl From<char> for CharCel {
    fn from(a: char) -> (c: CharCel) {
        CharCel { char: a, fg_on: false, bg_on: false, fg: 0, bg: 0 }
    }
}

impl FromSpecImpl<char> for CharCel {
    open spec fn obeys_from_spec() -> bool {
        true
    }

    open spec fn from_spec(a: char) -> CharCel {
        CharCel::plain(a)
    }
}

} // verus!
