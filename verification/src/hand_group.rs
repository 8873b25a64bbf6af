//! Closed-hand groups: the building blocks of a winning hand.

use vstd::prelude::*;

use crate::tile::{Tile, spec_suit, spec_num, spec_is_red};

verus! {

/// A complete group of a hand: either three of a kind, or a run of three
/// consecutive tiles of one suit identified by its smallest member.
/// Tiles here are always normal (red-folded).
#[derive(Clone, Copy, Debug, PartialEq, Eq, Structural, Hash)]
pub enum HandGroup {
    /// Three of `Tile`.
    Koutsu(Tile),
    /// `Tile`, `Tile`+1, `Tile`+2 in one suit; the payload is the smallest.
    Shuntsu(Tile),
}

impl HandGroup {
    /// Validity: the anchor tile is a normal tile; a run fits inside its suit.
    pub open spec fn wf(self) -> bool {
        match self {
            HandGroup::Koutsu(t) => t.wf() && !spec_is_red(t@),
            HandGroup::Shuntsu(t) => t.wf() && !spec_is_red(t@) && spec_suit(t@) < 3 && spec_num(
                t@,
            ) <= 7,
        }
    }

    /// Is this a run?
    pub fn is_shuntsu(self) -> (r: bool)
        ensures
            r == (self matches HandGroup::Shuntsu(_)),
    {
        match self {
            HandGroup::Shuntsu(_) => true,
            HandGroup::Koutsu(_) => false,
        }
    }

    /// The anchor tile: the repeated tile of a triplet, or the smallest tile
    /// of a run.
    pub fn anchor(self) -> (r: Tile)
        ensures
            r == match self {
                HandGroup::Koutsu(t) => t,
                HandGroup::Shuntsu(t) => t,
            },
    {
        match self {
            HandGroup::Koutsu(t) => t,
            HandGroup::Shuntsu(t) => t,
        }
    }
}

} // verus!
