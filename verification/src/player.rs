//! Player indices (seats) around the table.

use vstd::prelude::*;

verus! {

/// One of the four seats, numbered 0..4. Also used as a *relative* seat:
/// the discarding opponent of a meld is `self + dir` (mod 4).
#[derive(Clone, Copy, Debug, PartialEq, Eq, Structural, Hash)]
pub struct Player {
    p: u8,
}

impl View for Player {
    type V = int;

    closed spec fn view(&self) -> int {
        self.p as int
    }
}

impl Player {
    /// Validity: one of the four seats.
    pub open spec fn wf(self) -> bool {
        0 <= self@ < 4
    }

    /// Wraps a raw seat number (reduced modulo 4).
    pub fn new(p: u8) -> (r: Player)
        ensures
            r@ == p as int % 4,
            r.wf(),
    {
        Player { p: p % 4 }
    }

    /// The seat as a number.
    pub fn to_u8(self) -> (r: u8)
        ensures
            r as int == self@,
    {
        self.p
    }

    /// The seat as an index.
    pub fn to_usize(self) -> (r: usize)
        ensures
            r as int == self@,
    {
        self.p as usize
    }

    /// Two seats with the same number are the same seat.
    pub proof fn lemma_eq(a: Player, b: Player)
        requires
            a@ == b@,
        ensures
            a == b,
    {
    }

    /// The seat `steps` places downstream (to the right), wrapping around.
    pub fn add(self, steps: u8) -> (r: Player)
        requires
            self.wf(),
        ensures
            r@ == (self@ + steps as int) % 4,
            r.wf(),
    {
        Player { p: (self.p + steps % 4) % 4 }
    }
}

} // verus!
