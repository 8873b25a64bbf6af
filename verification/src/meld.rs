//! Melds: open or closed groups of called tiles, and their packed 16-bit codec.
//!
//! The packed layout, shared by all five meld kinds:
//! - bits `[5:0]`: the anchor tile (normal encoding; a chii's smallest tile),
//! - bits `[7:6]`: `dir` (a chii's called position, or the relative seat),
//! - bits `[11:8]`: red-five flags, kind-specific (see each type),
//! - bits `[14:12]`: the meld kind, 1..=5 (0 reserved, so 0 never parses),
//! - bit `15`: reserved zero.
//!
//! Red flags occupying "own" positions are canonical only when they fill the
//! lowest bits first; `normalize_pon` and friends restate any 4-bit pattern in
//! that canonical form.

use vstd::prelude::*;

use crate::tile::{
    Tile,
    digit_str,
    sort2,
    sort3,
    spec_digit_char,
    spec_suit_char,
    spec_is_red,
    spec_key,
    spec_normal,
    spec_normal_num,
    spec_num,
    spec_suit,
    spec_to_red,
};
use crate::tile_set::TileSet37;
use crate::player::Player;
use crate::hand_group::HandGroup;

verus! {

// ---------------------------------------------------------------------------
// Packed field arithmetic
// ---------------------------------------------------------------------------
/// Anchor tile field of a packed meld.
pub open spec fn pm_tile(p: int) -> int {
    p % 64
}

/// Dir field of a packed meld.
pub open spec fn pm_dir(p: int) -> int {
    (p / 64) % 4
}

/// Red-flag nibble of a packed meld.
pub open spec fn pm_red(p: int) -> int {
    (p / 256) % 16
}

/// Kind field of a packed meld.
pub open spec fn pm_kind(p: int) -> int {
    (p / 4096) % 8
}

/// Assembles a packed meld from its four fields.
pub open spec fn pm_make(t: int, d: int, r: int, k: int) -> int {
    t + 64 * d + 256 * r + 4096 * k
}

pub proof fn lemma_pm_extract(t: int, d: int, r: int, k: int)
    requires
        0 <= t < 64,
        0 <= d < 4,
        0 <= r < 16,
        0 <= k < 8,
    ensures
        pm_tile(pm_make(t, d, r, k)) == t,
        pm_dir(pm_make(t, d, r, k)) == d,
        pm_red(pm_make(t, d, r, k)) == r,
        pm_kind(pm_make(t, d, r, k)) == k,
        0 <= pm_make(t, d, r, k) < 0x8000,
{
    let p = pm_make(t, d, r, k);
    assert(p == t + 64 * (d + 4 * r + 64 * k));
    assert(p % 64 == t && p / 64 == d + 4 * r + 64 * k) by (nonlinear_arith)
        requires
            p == t + 64 * (d + 4 * r + 64 * k),
            0 <= t < 64,
            0 <= d + 4 * r + 64 * k,
    ;
    let q = d + 4 * r + 64 * k;
    assert(q % 4 == d && q / 4 == r + 16 * k) by (nonlinear_arith)
        requires
            q == d + 4 * (r + 16 * k),
            0 <= d < 4,
            0 <= r + 16 * k,
    ;
    let w = r + 16 * k;
    assert(w % 16 == r && w / 16 == k) by (nonlinear_arith)
        requires
            w == r + 16 * k,
            0 <= r < 16,
            0 <= k,
    ;
    assert(p / 256 == w) by (nonlinear_arith)
        requires
            p == (t + 64 * d) + 256 * w,
            0 <= t + 64 * d < 256,
            0 <= w,
    ;
    assert(p / 4096 == k) by (nonlinear_arith)
        requires
            p == (t + 64 * d + 256 * r) + 4096 * k,
            0 <= t + 64 * d + 256 * r < 4096,
            0 <= k,
    ;
    assert(k % 8 == k);
}

// ---------------------------------------------------------------------------
// Red-flag normalization
// ---------------------------------------------------------------------------
/// Canonical form of the two own-position red flags of a pon: the number of
/// set bits among bits 0..2 moves to the lowest bits; bit 2 is kept, bit 3
/// dropped.
pub open spec fn spec_normalize_pon(x: int) -> int {
    ((x / 4) % 2) * 4 + (if x % 4 == 0 {
        0int
    } else if x % 4 == 3 {
        3int
    } else {
        1int
    })
}

/// Canonical form of a kakan's red flags: own bits 0..2 compacted, bits 2 and
/// 3 kept.
pub open spec fn spec_normalize_kakan(x: int) -> int {
    (x / 4) * 4 + (if x % 4 == 0 {
        0int
    } else if x % 4 == 3 {
        3int
    } else {
        1int
    })
}

/// Number of set bits among the low three bits of `x`.
pub open spec fn spec_pop3(x: int) -> int {
    (x % 2) + (x / 2) % 2 + (x / 4) % 2
}

/// Canonical form of a daiminkan's red flags: own bits 0..3 compacted, bit 3
/// (the called tile) kept.
pub open spec fn spec_normalize_daiminkan(x: int) -> int {
    (x / 8) * 8 + (if spec_pop3(x % 8) == 0 {
        0int
    } else if spec_pop3(x % 8) == 1 {
        1int
    } else if spec_pop3(x % 8) == 2 {
        3int
    } else {
        7int
    })
}

/// Number of set bits among the low four bits of `x`.
pub open spec fn spec_pop4(x: int) -> int {
    (x % 2) + (x / 2) % 2 + (x / 4) % 2 + (x / 8) % 2
}

/// Canonical form of an ankan's red flags: all four own bits compacted.
pub open spec fn spec_normalize_ankan(x: int) -> int {
    if spec_pop4(x % 16) == 0 {
        0int
    } else if spec_pop4(x % 16) == 1 {
        1int
    } else if spec_pop4(x % 16) == 2 {
        3int
    } else if spec_pop4(x % 16) == 3 {
        7int
    } else {
        15int
    }
}

/// Normalizes a pon's red flags (own tiles occupy bits 0 and 1).
pub fn normalize_pon(x: u8) -> (r: u8)
    requires
        x < 16,
    ensures
        r as int == spec_normalize_pon(x as int),
        r < 8,
{
    let high = ((x / 4) % 2) * 4;
    let low = x % 4;
    high + (if low == 0 {
        0
    } else if low == 3 {
        3
    } else {
        1
    })
}

/// Normalizes a kakan's red flags (own tiles occupy bits 0 and 1).
pub fn normalize_kakan(x: u8) -> (r: u8)
    requires
        x < 16,
    ensures
        r as int == spec_normalize_kakan(x as int),
        r < 16,
{
    let high = (x / 4) * 4;
    let low = x % 4;
    high + (if low == 0 {
        0
    } else if low == 3 {
        3
    } else {
        1
    })
}

/// Normalizes a daiminkan's red flags (own tiles occupy bits 0..3).
pub fn normalize_daiminkan(x: u8) -> (r: u8)
    requires
        x < 16,
    ensures
        r as int == spec_normalize_daiminkan(x as int),
        r < 16,
{
    let high = (x / 8) * 8;
    let low = x % 8;
    let pop = (low % 2) + (low / 2) % 2 + (low / 4) % 2;
    high + (if pop == 0 {
        0
    } else if pop == 1 {
        1
    } else if pop == 2 {
        3
    } else {
        7
    })
}

/// Normalizes an ankan's red flags (own tiles occupy all four bits).
pub fn normalize_ankan(x: u8) -> (r: u8)
    requires
        x < 16,
    ensures
        r as int == spec_normalize_ankan(x as int),
        r < 16,
{
    let pop = (x % 2) + (x / 2) % 2 + (x / 4) % 2 + (x / 8) % 2;
    if pop == 0 {
        0
    } else if pop == 1 {
        1
    } else if pop == 2 {
        3
    } else if pop == 3 {
        7
    } else {
        15
    }
}

/// Red-flag normalization is idempotent and preserves the number of red
/// tiles in own positions, for each of the four kind-specific variants.
#[verifier::rlimit(60)]
pub proof fn lemma_normalize_laws(x: int)
    requires
        0 <= x < 16,
    ensures
        spec_normalize_pon(spec_normalize_pon(x)) == spec_normalize_pon(x),
        spec_normalize_kakan(spec_normalize_kakan(x)) == spec_normalize_kakan(x),
        spec_normalize_daiminkan(spec_normalize_daiminkan(x)) == spec_normalize_daiminkan(x),
        spec_normalize_ankan(spec_normalize_ankan(x)) == spec_normalize_ankan(x),
        (spec_normalize_pon(x) % 2) + (spec_normalize_pon(x) / 2) % 2 == (x % 2) + (x / 2) % 2,
        (spec_normalize_kakan(x) % 2) + (spec_normalize_kakan(x) / 2) % 2 == (x % 2) + (x / 2) % 2,
        spec_pop3(spec_normalize_daiminkan(x) % 8) == spec_pop3(x % 8),
        spec_pop4(spec_normalize_ankan(x) % 16) == spec_pop4(x % 16),
{
}

// ---------------------------------------------------------------------------
// Chii
// ---------------------------------------------------------------------------
/// Do the three encodings form a run of consecutive numbers (in some order)?
pub open spec fn run3(x: int, y: int, z: int) -> bool {
    (x + 1 == y && y + 1 == z) || (x + 1 == z && z + 1 == y) || (y + 1 == x && x + 1 == z) || (y + 1
        == z && z + 1 == x) || (z + 1 == x && x + 1 == y) || (z + 1 == y && y + 1 == x)
}

/// The smallest of three values.
pub open spec fn min3(x: int, y: int, z: int) -> int {
    if x <= y && x <= z {
        x
    } else if y <= z {
        y
    } else {
        z
    }
}

/// Can `(a, b)` from the hand call `c` to form a run?
pub open spec fn chii_formable(a: int, b: int, c: int) -> bool {
    &&& spec_suit(a) == spec_suit(c)
    &&& spec_suit(b) == spec_suit(c)
    &&& spec_suit(c) < 3
    &&& run3(spec_normal(a), spec_normal(b), spec_normal(c))
}

/// An open run of three consecutive tiles, the called one taken from the
/// previous player's discard. Red flag bit 0 records whether *any* member is
/// a red five.
#[derive(Clone, Copy, Debug, PartialEq, Eq, Structural, Hash)]
pub struct Chii {
    /// The calling player's own two tiles, sorted (red five first).
    pub own0: Tile,
    /// The calling player's own two tiles, sorted (red five first).
    pub own1: Tile,
    /// The called tile.
    pub called: Tile,
    /// The smallest tile of the run, red folded to normal.
    pub min: Tile,
}

impl Chii {
    /// Validity: one suited run, own pair sorted, `min` its smallest normal.
    pub open spec fn wf(self) -> bool {
        &&& self.own0.wf() && self.own1.wf() && self.called.wf() && self.min.wf()
        &&& spec_suit(self.own0@) == spec_suit(self.called@)
        &&& spec_suit(self.own1@) == spec_suit(self.called@)
        &&& spec_suit(self.called@) < 3
        &&& !spec_is_red(self.min@)
        &&& spec_key(self.own0@) <= spec_key(self.own1@)
        &&& run3(spec_normal(self.own0@), spec_normal(self.own1@), spec_normal(self.called@))
        &&& self.min@ == min3(
            spec_normal(self.own0@),
            spec_normal(self.own1@),
            spec_normal(self.called@),
        )
    }

    /// Position of the called tile within the run (0, 1 or 2).
    pub open spec fn spec_dir(self) -> int {
        spec_normal_num(self.called@) - spec_num(self.min@)
    }

    /// Position of the called tile within the run.
    pub fn dir(self) -> (r: u8)
        requires
            self.wf(),
        ensures
            r as int == self.spec_dir(),
            r <= 2,
    {
        self.called.normal_num() - self.min.num()
    }

    /// The suit of the run.
    pub fn suit(self) -> (r: u8)
        requires
            self.wf(),
        ensures
            r as int == spec_suit(self.called@),
    {
        self.called.suit()
    }

    /// Constructs a chii from the two own tiles and the called tile.
    /// Succeeds exactly when all three share a (numbered) suit and their
    /// normal forms are three consecutive numbers.
    pub fn from_tiles(own0: Tile, own1: Tile, called: Tile) -> (r: Option<Chii>)
        requires
            own0.wf(),
            own1.wf(),
            called.wf(),
        ensures
            (r is Some) <==> chii_formable(own0@, own1@, called@),
            r matches Some(ch) ==> {
                &&& ch.wf()
                &&& ch.called == called
                &&& ((ch.own0 == own0 && ch.own1 == own1) || (ch.own0 == own1 && ch.own1 == own0))
                &&& ch.min@ == min3(
                    spec_normal(own0@),
                    spec_normal(own1@),
                    spec_normal(called@),
                )
            },
    {
        let s = called.suit();
        if own0.suit() != s || own1.suit() != s {
            return None;
        }
        if s >= 3 {
            return None;
        }
        let (o0, o1) = sort2(own0, own1);
        let (a, b, c) = sort3(own0.to_normal(), own1.to_normal(), called.to_normal());
        if !(b.encoding() == a.encoding() + 1 && c.encoding() == b.encoding() + 1) {
            return None;
        }
        Some(Chii { own0: o0, own1: o1, called, min: a })
    }

    /// Are the two own tiles available in the closed hand?
    pub fn is_in_hand(self, hand: &TileSet37) -> (r: bool)
        requires
            self.wf(),
            hand@.len() == 37,
        ensures
            r == (hand@[self.own0@] >= 1 && hand@[self.own1@] >= 1),
    {
        hand.get(self.own0) >= 1 && hand.get(self.own1) >= 1
    }

    /// Removes the two own tiles from the closed hand.
    pub fn consume_from_hand(self, hand: &mut TileSet37)
        requires
            self.wf(),
            old(hand)@.len() == 37,
            old(hand)@[self.own0@] >= 1,
            old(hand)@[self.own1@] >= 1,
        ensures
            final(hand)@.len() == 37,
            final(hand)@[self.own0@] == old(hand)@[self.own0@] - 1,
            final(hand)@[self.own1@] == old(hand)@[self.own1@] - 1,
            forall|e: int|
                0 <= e < 37 && e != self.own0@ && e != self.own1@ ==> final(hand)@[e] == old(
                    hand,
                )@[e],
    {
        proof {
            assert(spec_normal(self.own0@) != spec_normal(self.own1@));
            assert(self.own0@ != self.own1@);
        }
        let c0 = hand.get(self.own0);
        hand.set(self.own0, c0 - 1);
        let c1 = hand.get(self.own1);
        hand.set(self.own1, c1 - 1);
    }
}

// ---------------------------------------------------------------------------
// Pon
// ---------------------------------------------------------------------------
/// Can `(a, b)` from the hand call `c` (all one normal kind) from seat
/// offset `dir`?
pub open spec fn pon_formable(a: int, b: int, c: int, dir: int) -> bool {
    &&& spec_normal(a) == spec_normal(c)
    &&& spec_normal(b) == spec_normal(c)
    &&& 1 <= dir <= 3
}

/// An open triplet called from any opponent's discard. Red flags: bit 0 and
/// bit 1 for the own tiles (canonically lowest-first), bit 2 for the called
/// tile.
#[derive(Clone, Copy, Debug, PartialEq, Eq, Structural, Hash)]
pub struct Pon {
    /// The calling player's own two tiles, sorted (red five first).
    pub own0: Tile,
    /// The calling player's own two tiles, sorted (red five first).
    pub own1: Tile,
    /// The called tile.
    pub called: Tile,
    /// Relative seat of the discarding player: `(discarder - self) mod 4`.
    pub dir: Player,
}

impl Pon {
    /// Validity: three of one normal kind, own pair sorted, opponent seat.
    pub open spec fn wf(self) -> bool {
        &&& self.own0.wf() && self.own1.wf() && self.called.wf()
        &&& spec_normal(self.own0@) == spec_normal(self.called@)
        &&& spec_normal(self.own1@) == spec_normal(self.called@)
        &&& 1 <= self.dir@ <= 3
        &&& spec_key(self.own0@) <= spec_key(self.own1@)
    }

    /// The repeated number (red folded to 5).
    pub fn num(self) -> (r: u8)
        requires
            self.wf(),
        ensures
            r as int == spec_normal_num(self.called@),
    {
        self.called.normal_num()
    }

    /// The suit of the triplet.
    pub fn suit(self) -> (r: u8)
        requires
            self.wf(),
        ensures
            r as int == spec_suit(self.called@),
    {
        self.called.suit()
    }

    /// Constructs a pon from the two own tiles, the called tile, and the
    /// relative seat of the discarding player. Succeeds exactly when all
    /// three tiles share one normal kind and the seat is a real opponent.
    pub fn from_tiles_dir(own0: Tile, own1: Tile, called: Tile, dir: Player) -> (r: Option<Pon>)
        requires
            own0.wf(),
            own1.wf(),
            called.wf(),
            dir.wf(),
        ensures
            (r is Some) <==> pon_formable(own0@, own1@, called@, dir@),
            r matches Some(p) ==> {
                &&& p.wf()
                &&& p.called == called
                &&& p.dir == dir
                &&& ((p.own0 == own0 && p.own1 == own1) || (p.own0 == own1 && p.own1 == own0))
            },
    {
        if own0.normal_encoding() != called.normal_encoding() || own1.normal_encoding()
            != called.normal_encoding() || dir.to_u8() == 0 {
            return None;
        }
        let (o0, o1) = sort2(own0, own1);
        Some(Pon { own0: o0, own1: o1, called, dir })
    }

    /// Are the two own tiles available in the closed hand?
    pub fn is_in_hand(self, hand: &TileSet37) -> (r: bool)
        requires
            self.wf(),
            hand@.len() == 37,
        ensures
            r == if self.own0@ == self.own1@ {
                hand@[self.own0@] >= 2
            } else {
                hand@[self.own0@] >= 1 && hand@[self.own1@] >= 1
            },
    {
        if self.own0.encoding() == self.own1.encoding() {
            hand.get(self.own0) >= 2
        } else {
            hand.get(self.own0) >= 1 && hand.get(self.own1) >= 1
        }
    }

    /// How many of encoding `e` this pon takes from the hand.
    pub open spec fn own_uses(self, e: int) -> int {
        (if self.own0@ == e {
            1int
        } else {
            0int
        }) + (if self.own1@ == e {
            1int
        } else {
            0int
        })
    }

    /// Removes the two own tiles from the closed hand.
    pub fn consume_from_hand(self, hand: &mut TileSet37)
        requires
            self.wf(),
            old(hand)@.len() == 37,
            forall|e: int| 0 <= e < 37 ==> old(hand)@[e] >= self.own_uses(e),
        ensures
            final(hand)@.len() == 37,
            forall|e: int|
                0 <= e < 37 ==> final(hand)@[e] == old(hand)@[e] - self.own_uses(e),
    {
        proof {
            assert(old(hand)@[self.own0@] >= self.own_uses(self.own0@));
            assert(old(hand)@[self.own1@] >= self.own_uses(self.own1@));
        }
        let c0 = hand.get(self.own0);
        hand.set(self.own0, c0 - 1);
        let c1 = hand.get(self.own1);
        hand.set(self.own1, c1 - 1);
    }
}

// ---------------------------------------------------------------------------
// Kakan
// ---------------------------------------------------------------------------
/// A promoted kan: a prior pon plus the fourth tile added from the own hand.
/// Red flags: bits 0..3 from the pon, bit 3 for the added tile.
#[derive(Clone, Copy, Debug, PartialEq, Eq, Structural, Hash)]
pub struct Kakan {
    /// The pon this kan was promoted from.
    pub pon: Pon,
    /// The fourth tile, added from the hand.
    pub added: Tile,
}

impl Kakan {
    /// Validity: a valid pon plus a fourth tile of the same normal kind.
    pub open spec fn wf(self) -> bool {
        &&& self.pon.wf()
        &&& self.added.wf()
        &&& spec_normal(self.added@) == spec_normal(self.pon.called@)
    }

    /// The repeated number (red folded to 5).
    pub fn num(self) -> (r: u8)
        requires
            self.wf(),
        ensures
            r as int == spec_normal_num(self.added@),
    {
        self.added.normal_num()
    }

    /// The suit of the kan.
    pub fn suit(self) -> (r: u8)
        requires
            self.wf(),
        ensures
            r as int == spec_suit(self.added@),
    {
        self.added.suit()
    }

    /// Promotes a pon with the added fourth tile. Succeeds exactly when the
    /// added tile matches the pon's normal kind.
    pub fn from_pon_added(pon: Pon, added: Tile) -> (r: Option<Kakan>)
        requires
            pon.wf(),
            added.wf(),
        ensures
            (r is Some) <==> spec_normal(added@) == spec_normal(pon.called@),
            r matches Some(k) ==> k == (Kakan { pon, added }) && k.wf(),
    {
        if added.normal_encoding() == pon.called.normal_encoding() {
            Some(Kakan { pon, added })
        } else {
            None
        }
    }

    /// Removes the added tile from the closed hand (the pon's own tiles left
    /// it when the pon was called).
    pub fn consume_from_hand(self, hand: &mut TileSet37)
        requires
            self.wf(),
            old(hand)@.len() == 37,
            old(hand)@[self.added@] >= 1,
        ensures
            final(hand)@.len() == 37,
            final(hand)@[self.added@] == old(hand)@[self.added@] - 1,
            forall|e: int|
                0 <= e < 37 && e != self.added@ ==> final(hand)@[e] == old(hand)@[e],
    {
        let c = hand.get(self.added);
        hand.set(self.added, c - 1);
    }
}

// ---------------------------------------------------------------------------
// Daiminkan
// ---------------------------------------------------------------------------
/// Can `(a, b, c)` from the hand call `d` (all one normal kind) from seat
/// offset `dir`?
pub open spec fn daiminkan_formable(a: int, b: int, c: int, d: int, dir: int) -> bool {
    &&& spec_normal(a) == spec_normal(d)
    &&& spec_normal(b) == spec_normal(d)
    &&& spec_normal(c) == spec_normal(d)
    &&& 1 <= dir <= 3
}

/// A big open kan: three of a kind in hand plus the called fourth. Red
/// flags: bits 0..3 for the own tiles (canonically lowest-first), bit 3 for
/// the called tile.
#[derive(Clone, Copy, Debug, PartialEq, Eq, Structural, Hash)]
pub struct Daiminkan {
    /// The calling player's own three tiles, sorted (red five first).
    pub own0: Tile,
    /// The calling player's own three tiles, sorted (red five first).
    pub own1: Tile,
    /// The calling player's own three tiles, sorted (red five first).
    pub own2: Tile,
    /// The called tile.
    pub called: Tile,
    /// Relative seat of the discarding player: `(discarder - self) mod 4`.
    pub dir: Player,
}

impl Daiminkan {
    /// Validity: four of one normal kind, own triple sorted, opponent seat.
    pub open spec fn wf(self) -> bool {
        &&& self.own0.wf() && self.own1.wf() && self.own2.wf() && self.called.wf()
        &&& spec_normal(self.own0@) == spec_normal(self.called@)
        &&& spec_normal(self.own1@) == spec_normal(self.called@)
        &&& spec_normal(self.own2@) == spec_normal(self.called@)
        &&& 1 <= self.dir@ <= 3
        &&& spec_key(self.own0@) <= spec_key(self.own1@) <= spec_key(self.own2@)
    }

    /// The repeated number (red folded to 5).
    pub fn num(self) -> (r: u8)
        requires
            self.wf(),
        ensures
            r as int == spec_normal_num(self.called@),
    {
        self.called.normal_num()
    }

    /// The suit of the kan.
    pub fn suit(self) -> (r: u8)
        requires
            self.wf(),
        ensures
            r as int == spec_suit(self.called@),
    {
        self.called.suit()
    }

    /// Constructs a daiminkan from the three own tiles, the called tile, and
    /// the relative seat of the discarding player. Succeeds exactly when all
    /// four tiles share one normal kind and the seat is a real opponent.
    pub fn from_tiles_dir(own: [Tile; 3], called: Tile, dir: Player) -> (r: Option<Daiminkan>)
        requires
            own@[0].wf(),
            own@[1].wf(),
            own@[2].wf(),
            called.wf(),
            dir.wf(),
        ensures
            (r is Some) <==> daiminkan_formable(own@[0]@, own@[1]@, own@[2]@, called@, dir@),
            r matches Some(d) ==> {
                &&& d.wf()
                &&& d.called == called
                &&& d.dir == dir
                &&& perm3(d.own0, d.own1, d.own2, own@[0], own@[1], own@[2])
            },
    {
        if own[0].normal_encoding() != called.normal_encoding() || own[1].normal_encoding()
            != called.normal_encoding() || own[2].normal_encoding() != called.normal_encoding()
            || dir.to_u8() == 0 {
            return None;
        }
        let (o0, o1, o2) = sort3(own[0], own[1], own[2]);
        Some(Daiminkan { own0: o0, own1: o1, own2: o2, called, dir })
    }

    /// Constructs a daiminkan by taking the three matching tiles (normal or
    /// red) out of the closed hand for the called tile.
    pub fn from_hand_dir(hand: &TileSet37, called: Tile, dir: Player) -> (r: Option<Daiminkan>)
        requires
            hand@.len() == 37,
            called.wf(),
            dir.wf(),
        ensures
            (r is Some) <==> (kan_count_in_hand(hand@, called@) == 3 && 1 <= dir@ <= 3),
            r matches Some(d) ==> {
                &&& d.wf()
                &&& d.called == called
                &&& d.dir == dir
                &&& spec_normal(d.own0@) == spec_normal(called@)
                // the own tiles reproduce the hand's red/normal split
                &&& red_flag(d.own0) + red_flag(d.own1) + red_flag(d.own2) == (if spec_to_red(
                    spec_normal(called@),
                ) != spec_normal(called@) {
                    hand@[spec_to_red(spec_normal(called@))] as int
                } else {
                    0int
                })
            },
    {
        let normal = called.to_normal();
        let red = normal.to_red();
        let num_normal = hand.get(normal);
        let num_red = if red.encoding() != normal.encoding() {
            hand.get(red)
        } else {
            0
        };
        if num_normal > 4 || num_red > 4 {
            return None;
        }
        if num_normal + num_red != 3 {
            return None;
        }
        let t0 = if num_red >= 1 {
            red
        } else {
            normal
        };
        let t1 = if num_red >= 2 {
            red
        } else {
            normal
        };
        let t2 = if num_red >= 3 {
            red
        } else {
            normal
        };
        Daiminkan::from_tiles_dir([t0, t1, t2], called, dir)
    }

    /// Removes all own tiles from the closed hand by clearing both the
    /// normal and the red slot of the kind.
    pub fn consume_from_hand(self, hand: &mut TileSet37)
        requires
            self.wf(),
            old(hand)@.len() == 37,
        ensures
            final(hand)@.len() == 37,
            final(hand)@[spec_normal(self.own0@)] == 0,
            final(hand)@[spec_to_red(spec_normal(self.own0@))] == 0,
            forall|e: int|
                0 <= e < 37 && e != spec_normal(self.own0@) && e != spec_to_red(
                    spec_normal(self.own0@),
                ) ==> final(hand)@[e] == old(hand)@[e],
    {
        let normal = self.own0.to_normal();
        hand.set(normal, 0);
        hand.set(normal.to_red(), 0);
    }
}

/// Number of tiles of the normal kind of `called` in the hand, red included.
pub open spec fn kan_count_in_hand(h: Seq<u8>, called: int) -> int {
    if spec_to_red(spec_normal(called)) == spec_normal(called) {
        h[spec_normal(called)] as int
    } else {
        h[spec_normal(called)] + h[spec_to_red(spec_normal(called))]
    }
}

/// Is `(x, y, z)` some ordering of `(a, b, c)`?
pub open spec fn perm3(x: Tile, y: Tile, z: Tile, a: Tile, b: Tile, c: Tile) -> bool {
    (x == a && y == b && z == c) || (x == a && y == c && z == b) || (x == b && y == a && z == c)
        || (x == b && y == c && z == a) || (x == c && y == a && z == b) || (x == c && y == b && z
        == a)
}

// ---------------------------------------------------------------------------
// Ankan
// ---------------------------------------------------------------------------
/// A closed kan: all four tiles of one kind from the own hand. Red flags:
/// bits 0..3 for the four tiles (canonically lowest-first).
#[derive(Clone, Copy, Debug, PartialEq, Eq, Structural, Hash)]
pub struct Ankan {
    /// The four own tiles, sorted (red five first).
    pub own0: Tile,
    /// The four own tiles, sorted (red five first).
    pub own1: Tile,
    /// The four own tiles, sorted (red five first).
    pub own2: Tile,
    /// The four own tiles, sorted (red five first).
    pub own3: Tile,
}

impl Ankan {
    /// Validity: four of one normal kind, sorted (red five first).
    pub open spec fn wf(self) -> bool {
        &&& self.own0.wf() && self.own1.wf() && self.own2.wf() && self.own3.wf()
        &&& spec_normal(self.own1@) == spec_normal(self.own0@)
        &&& spec_normal(self.own2@) == spec_normal(self.own0@)
        &&& spec_normal(self.own3@) == spec_normal(self.own0@)
        &&& spec_key(self.own0@) <= spec_key(self.own1@) <= spec_key(self.own2@) <= spec_key(
            self.own3@,
        )
    }

    /// The repeated number (red folded to 5).
    pub fn num(self) -> (r: u8)
        requires
            self.wf(),
        ensures
            r as int == spec_normal_num(self.own0@),
    {
        self.own0.normal_num()
    }

    /// The suit of the kan.
    pub fn suit(self) -> (r: u8)
        requires
            self.wf(),
        ensures
            r as int == spec_suit(self.own0@),
    {
        self.own0.suit()
    }

    /// Constructs an ankan by taking all four matching tiles (normal or red)
    /// out of the closed hand for the given kind.
    pub fn from_hand(hand: &TileSet37, t: Tile) -> (r: Option<Ankan>)
        requires
            hand@.len() == 37,
            t.wf(),
            hand.wf(),
        ensures
            (r is Some) <==> kan_count_in_hand(hand@, t@) == 4,
            r matches Some(a) ==> a.wf() && spec_normal(a.own0@) == spec_normal(t@)
                // the own tiles reproduce the hand's red/normal split
                && red_flag(a.own0) + red_flag(a.own1) + red_flag(a.own2) + red_flag(a.own3) == (
            if spec_to_red(spec_normal(t@)) != spec_normal(t@) {
                hand@[spec_to_red(spec_normal(t@))] as int
            } else {
                0int
            }),
    {
        let normal = t.to_normal();
        let red = normal.to_red();
        let num_normal = hand.get(normal);
        let num_red = if red.encoding() != normal.encoding() {
            hand.get(red)
        } else {
            0
        };
        if num_normal + num_red != 4 {
            return None;
        }
        let t0 = if num_red >= 1 {
            red
        } else {
            normal
        };
        let t1 = if num_red >= 2 {
            red
        } else {
            normal
        };
        let t2 = if num_red >= 3 {
            red
        } else {
            normal
        };
        let t3 = if num_red >= 4 {
            red
        } else {
            normal
        };
        Some(Ankan { own0: t0, own1: t1, own2: t2, own3: t3 })
    }

    /// Removes all four tiles from the closed hand by clearing both the
    /// normal and the red slot of the kind.
    pub fn consume_from_hand(self, hand: &mut TileSet37)
        requires
            self.wf(),
            old(hand)@.len() == 37,
        ensures
            final(hand)@.len() == 37,
            final(hand)@[spec_normal(self.own0@)] == 0,
            final(hand)@[spec_to_red(spec_normal(self.own0@))] == 0,
            forall|e: int|
                0 <= e < 37 && e != spec_normal(self.own0@) && e != spec_to_red(
                    spec_normal(self.own0@),
                ) ==> final(hand)@[e] == old(hand)@[e],
    {
        let normal = self.own0.to_normal();
        hand.set(normal, 0);
        hand.set(normal.to_red(), 0);
    }
}

// ---------------------------------------------------------------------------
// The Meld sum type and its packed codec
// ---------------------------------------------------------------------------
/// Sum type of all five meld kinds.
#[derive(Clone, Copy, Debug, PartialEq, Eq, Structural, Hash)]
pub enum Meld {
    /// See [`Chii`].
    Chii(Chii),
    /// See [`Pon`].
    Pon(Pon),
    /// See [`Kakan`].
    Kakan(Kakan),
    /// See [`Daiminkan`].
    Daiminkan(Daiminkan),
    /// See [`Ankan`].
    Ankan(Ankan),
}

/// 1 if the tile is a red five, else 0.
pub open spec fn red_flag(t: Tile) -> int {
    if spec_is_red(t@) {
        1
    } else {
        0
    }
}

/// Canonical packing of a chii: anchor = its smallest normal tile, red bit 0
/// set when any member is red.
pub open spec fn spec_packed_chii(c: Chii) -> int {
    pm_make(
        c.min@,
        c.spec_dir(),
        if spec_is_red(c.own0@) || spec_is_red(c.own1@) || spec_is_red(c.called@) {
            1
        } else {
            0
        },
        1,
    )
}

/// Canonical packing of a pon.
pub open spec fn spec_packed_pon(p: Pon) -> int {
    pm_make(
        spec_normal(p.called@),
        p.dir@,
        red_flag(p.own0) + 2 * red_flag(p.own1) + 4 * red_flag(p.called),
        2,
    )
}

/// Canonical packing of a kakan.
pub open spec fn spec_packed_kakan(k: Kakan) -> int {
    pm_make(
        spec_normal(k.pon.called@),
        k.pon.dir@,
        red_flag(k.pon.own0) + 2 * red_flag(k.pon.own1) + 4 * red_flag(k.pon.called) + 8 * red_flag(
            k.added,
        ),
        3,
    )
}

/// Canonical packing of a daiminkan.
pub open spec fn spec_packed_daiminkan(d: Daiminkan) -> int {
    pm_make(
        spec_normal(d.called@),
        d.dir@,
        red_flag(d.own0) + 2 * red_flag(d.own1) + 4 * red_flag(d.own2) + 8 * red_flag(d.called),
        4,
    )
}

/// Canonical packing of an ankan (dir is 0).
pub open spec fn spec_packed_ankan(a: Ankan) -> int {
    pm_make(
        spec_normal(a.own0@),
        0,
        red_flag(a.own0) + 2 * red_flag(a.own1) + 4 * red_flag(a.own2) + 8 * red_flag(a.own3),
        5,
    )
}

/// Canonical packed form of a meld. Never 0, because the kind field is 1..=5.
pub open spec fn spec_packed(m: Meld) -> int {
    match m {
        Meld::Chii(c) => spec_packed_chii(c),
        Meld::Pon(p) => spec_packed_pon(p),
        Meld::Kakan(k) => spec_packed_kakan(k),
        Meld::Daiminkan(d) => spec_packed_daiminkan(d),
        Meld::Ankan(a) => spec_packed_ankan(a),
    }
}

/// The packing with its red nibble restated canonically for its kind
/// (any nonzero chii flag collapses to 1; own-position flags of the other
/// kinds compact to the lowest bits).
pub open spec fn spec_canon_packed(p: int) -> int {
    let k = pm_kind(p);
    let r = pm_red(p);
    let canon = if k == 1 {
        if r > 0 {
            1int
        } else {
            0int
        }
    } else if k == 2 {
        spec_normalize_pon(r)
    } else if k == 3 {
        spec_normalize_kakan(r)
    } else if k == 4 {
        spec_normalize_daiminkan(r)
    } else {
        spec_normalize_ankan(r)
    };
    pm_make(pm_tile(p), pm_dir(p), canon, k)
}

/// The canonicalized packing decomposes back into its (normalized) fields.
proof fn lemma_canon_fields(p: int)
    requires
        p >= 0,
    ensures
        pm_tile(spec_canon_packed(p)) == pm_tile(p),
        pm_dir(spec_canon_packed(p)) == pm_dir(p),
        pm_kind(spec_canon_packed(p)) == pm_kind(p),
        pm_kind(p) == 1 ==> pm_red(spec_canon_packed(p)) == (if pm_red(p) > 0 {
            1int
        } else {
            0int
        }),
        pm_kind(p) == 2 ==> pm_red(spec_canon_packed(p)) == spec_normalize_pon(pm_red(p)),
        pm_kind(p) == 3 ==> pm_red(spec_canon_packed(p)) == spec_normalize_kakan(pm_red(p)),
        pm_kind(p) == 4 ==> pm_red(spec_canon_packed(p)) == spec_normalize_daiminkan(pm_red(p)),
        (pm_kind(p) == 0 || pm_kind(p) >= 5) ==> pm_red(spec_canon_packed(p))
            == spec_normalize_ankan(pm_red(p)),
{
    let k = pm_kind(p);
    let r = pm_red(p);
    let canon = if k == 1 {
        if r > 0 {
            1int
        } else {
            0int
        }
    } else if k == 2 {
        spec_normalize_pon(r)
    } else if k == 3 {
        spec_normalize_kakan(r)
    } else if k == 4 {
        spec_normalize_daiminkan(r)
    } else {
        spec_normalize_ankan(r)
    };
    assert(0 <= r < 16);
    assert(0 <= canon < 16);
    assert(0 <= pm_tile(p) < 64);
    assert(0 <= pm_dir(p) < 4);
    assert(0 <= k < 8);
    lemma_pm_extract(pm_tile(p), pm_dir(p), canon, k);
}

/// A meld in its packed 16-bit wire form.
#[derive(Clone, Copy, Debug, PartialEq, Eq, Structural, Hash)]
pub struct PackedMeld {
    bits: u16,
}

impl View for PackedMeld {
    type V = int;

    closed spec fn view(&self) -> int {
        self.bits as int
    }
}

impl PackedMeld {
    /// Wraps raw bits.
    pub fn new(bits: u16) -> (r: PackedMeld)
        ensures
            r@ == bits as int,
    {
        PackedMeld { bits }
    }

    /// The raw bits.
    pub fn bits(self) -> (r: u16)
        ensures
            r as int == self@,
    {
        self.bits
    }

    /// The anchor tile field.
    pub fn tile(self) -> (r: u8)
        ensures
            r as int == pm_tile(self@),
    {
        (self.bits % 64) as u8
    }

    /// The dir field.
    pub fn dir(self) -> (r: u8)
        ensures
            r as int == pm_dir(self@),
    {
        ((self.bits / 64) % 4) as u8
    }

    /// The red-flag nibble.
    pub fn red(self) -> (r: u8)
        ensures
            r as int == pm_red(self@),
    {
        ((self.bits / 256) % 16) as u8
    }

    /// The kind field.
    pub fn kind(self) -> (r: u8)
        ensures
            r as int == pm_kind(self@),
    {
        ((self.bits / 4096) % 8) as u8
    }

    /// The anchor tile, folded to normal: `Some` exactly when the tile field
    /// is a valid encoding.
    pub fn get_tile(self) -> (r: Option<Tile>)
        ensures
            (r is Some) <==> pm_tile(self@) < 37,
            r matches Some(t) ==> t@ == spec_normal(pm_tile(self@)) && t.wf() && !spec_is_red(t@),
    {
        match Tile::from_encoding(self.tile()) {
            Some(t) => Some(t.to_normal()),
            None => None,
        }
    }
}

impl Meld {
    /// Validity of the underlying meld kind.
    pub open spec fn wf(self) -> bool {
        match self {
            Meld::Chii(c) => c.wf(),
            Meld::Pon(p) => p.wf(),
            Meld::Kakan(k) => k.wf(),
            Meld::Daiminkan(d) => d.wf(),
            Meld::Ankan(a) => a.wf(),
        }
    }

    /// Only an ankan is closed.
    pub fn is_closed(&self) -> (r: bool)
        ensures
            r == (self matches Meld::Ankan(_)),
    {
        match self {
            Meld::Ankan(_) => true,
            _ => false,
        }
    }

    /// Kakan, daiminkan and ankan are kans.
    pub fn is_kan(&self) -> (r: bool)
        ensures
            r == (self matches Meld::Kakan(_) || self matches Meld::Daiminkan(_)
                || self matches Meld::Ankan(_)),
    {
        match self {
            Meld::Kakan(_) | Meld::Daiminkan(_) | Meld::Ankan(_) => true,
            _ => false,
        }
    }

    /// The called tile, if any (an ankan calls nothing).
    pub fn called(&self) -> (r: Option<Tile>)
        ensures
            r == match *self {
                Meld::Chii(c) => Some(c.called),
                Meld::Pon(p) => Some(p.called),
                Meld::Kakan(k) => Some(k.pon.called),
                Meld::Daiminkan(d) => Some(d.called),
                Meld::Ankan(_) => None::<Tile>,
            },
    {
        match self {
            Meld::Chii(c) => Some(c.called),
            Meld::Pon(p) => Some(p.called),
            Meld::Kakan(k) => Some(k.pon.called),
            Meld::Daiminkan(d) => Some(d.called),
            Meld::Ankan(_) => None,
        }
    }

    /// The relative seat the call came from, if any: always the previous
    /// player (3) for a chii; nothing for an ankan.
    pub fn dir(&self) -> (r: Option<Player>)
        requires
            self.wf(),
        ensures
            (r is Some) <==> !(self matches Meld::Ankan(_)),
            self matches Meld::Chii(_) ==> (r matches Some(p) && p.wf() && p@ == 3),
            self matches Meld::Pon(q) ==> (r matches Some(p) && p.wf() && p@ == q.dir@),
            self matches Meld::Kakan(k) ==> (r matches Some(p) && p.wf() && p@ == k.pon.dir@),
            self matches Meld::Daiminkan(d) ==> (r matches Some(p) && p.wf() && p@ == d.dir@),
    {
        match self {
            Meld::Chii(_) => Some(Player::new(3)),
            Meld::Pon(p) => Some(p.dir),
            Meld::Kakan(k) => Some(k.pon.dir),
            Meld::Daiminkan(d) => Some(d.dir),
            Meld::Ankan(_) => None,
        }
    }

    /// The equivalent closed-hand group: a chii maps to its run, everything
    /// else to a triplet of its kind (a kan's fourth tile is ignored).
    pub fn to_equivalent_group(&self) -> (r: HandGroup)
        ensures
            self matches Meld::Chii(c) ==> r == HandGroup::Shuntsu(c.min),
            self matches Meld::Pon(p) ==> (r matches HandGroup::Koutsu(t) && t@ == spec_normal(
                p.called@,
            )),
            self matches Meld::Kakan(k) ==> (r matches HandGroup::Koutsu(t) && t@ == spec_normal(
                k.added@,
            )),
            self matches Meld::Daiminkan(d) ==> (r matches HandGroup::Koutsu(t) && t@
                == spec_normal(d.called@)),
            self matches Meld::Ankan(a) ==> (r matches HandGroup::Koutsu(t) && t@ == spec_normal(
                a.own0@,
            )),
            self.wf() ==> r.wf(),
    {
        match self {
            Meld::Chii(c) => HandGroup::Shuntsu(c.min),
            Meld::Pon(p) => HandGroup::Koutsu(p.called.to_normal()),
            Meld::Kakan(k) => HandGroup::Koutsu(k.added.to_normal()),
            Meld::Daiminkan(d) => HandGroup::Koutsu(d.called.to_normal()),
            Meld::Ankan(a) => HandGroup::Koutsu(a.own0.to_normal()),
        }
    }

    /// Removes this meld's own tiles from the closed hand, dispatching on
    /// the kind.
    pub fn consume_from_hand(&self, hand: &mut TileSet37)
        requires
            self.wf(),
            old(hand)@.len() == 37,
            match *self {
                Meld::Chii(c) => old(hand)@[c.own0@] >= 1 && old(hand)@[c.own1@] >= 1,
                Meld::Pon(p) => forall|e: int| 0 <= e < 37 ==> old(hand)@[e] >= p.own_uses(e),
                Meld::Kakan(k) => old(hand)@[k.added@] >= 1,
                Meld::Daiminkan(_) => true,
                Meld::Ankan(_) => true,
            },
        ensures
            final(hand)@.len() == 37,
            match *self {
                Meld::Chii(c) => final(hand)@ == old(hand)@.update(
                    c.own0@,
                    (old(hand)@[c.own0@] - 1) as u8,
                ).update(c.own1@, (old(hand)@[c.own1@] - 1) as u8),
                Meld::Pon(p) => forall|e: int|
                    0 <= e < 37 ==> final(hand)@[e] == old(hand)@[e] - p.own_uses(e),
                Meld::Kakan(k) => final(hand)@ == old(hand)@.update(
                    k.added@,
                    (old(hand)@[k.added@] - 1) as u8,
                ),
                Meld::Daiminkan(d) => kan_cleared(old(hand)@, final(hand)@, d.own0@),
                Meld::Ankan(a) => kan_cleared(old(hand)@, final(hand)@, a.own0@),
            },
    {
        match self {
            Meld::Chii(c) => c.consume_from_hand(hand),
            Meld::Pon(p) => p.consume_from_hand(hand),
            Meld::Kakan(k) => k.consume_from_hand(hand),
            Meld::Daiminkan(d) => d.consume_from_hand(hand),
            Meld::Ankan(a) => a.consume_from_hand(hand),
        }
    }
}

impl Meld {
    /// Serializes to the packed 16-bit form. Always produces the canonical
    /// packing: own-position red flags fill the lowest bits first (by the
    /// sorted order of the own tiles).
    pub fn packed(self) -> (r: u16)
        requires
            self.wf(),
        ensures
            r as int == spec_packed(self),
            r != 0,
    {
        let (t, d, red, k): (u8, u8, u8, u8) = match self {
            Meld::Chii(c) => {
                let any_red = c.own0.is_red() || c.own1.is_red() || c.called.is_red();
                (
                    c.min.encoding(),
                    c.dir(),
                    if any_red {
                        1
                    } else {
                        0
                    },
                    1,
                )
            },
            Meld::Pon(p) => {
                let red = flag(p.own0) + 2 * flag(p.own1) + 4 * flag(p.called);
                (p.called.normal_encoding(), p.dir.to_u8(), red, 2)
            },
            Meld::Kakan(kk) => {
                let red = flag(kk.pon.own0) + 2 * flag(kk.pon.own1) + 4 * flag(kk.pon.called) + 8
                    * flag(kk.added);
                (kk.pon.called.normal_encoding(), kk.pon.dir.to_u8(), red, 3)
            },
            Meld::Daiminkan(dd) => {
                let red = flag(dd.own0) + 2 * flag(dd.own1) + 4 * flag(dd.own2) + 8 * flag(
                    dd.called,
                );
                (dd.called.normal_encoding(), dd.dir.to_u8(), red, 4)
            },
            Meld::Ankan(a) => {
                let red = flag(a.own0) + 2 * flag(a.own1) + 4 * flag(a.own2) + 8 * flag(a.own3);
                (a.own0.normal_encoding(), 0, red, 5)
            },
        };
        (t as u16) + 64 * (d as u16) + 256 * (red as u16) + 4096 * (k as u16)
    }
}

/// 1 if the tile is a red five, else 0.
fn flag(t: Tile) -> (r: u8)
    ensures
        r as int == red_flag(t),
{
    if t.is_red() {
        1
    } else {
        0
    }
}

/// Parses the packed form of a pon (kind field 2): its red flags are first
/// normalized, then spread back onto the own tiles and the called tile.
fn parse_pon(pm: PackedMeld) -> (r: Option<Pon>)
    requires
        pm_kind(pm@) == 2,
    ensures
        r matches Some(p) ==> p.wf(),
        forall|p: Pon|
            p.wf() && #[trigger] spec_packed_pon(p) == pm@ ==> r == Some(p),
        forall|p: Pon|
            p.wf() && #[trigger] spec_packed_pon(p) == spec_canon_packed(pm@) ==> r == Some(p),
{
    proof {
        lemma_canon_fields(pm@);
    }
    let t = match pm.get_tile() {
        Some(t) => t,
        None => {
            proof {
                assert forall|p: Pon|
                    p.wf() && (spec_packed_pon(p) == pm@ || spec_packed_pon(p)
                        == spec_canon_packed(pm@)) implies false by {
                    lemma_pm_extract(
                        spec_normal(p.called@),
                        p.dir@,
                        red_flag(p.own0) + 2 * red_flag(p.own1) + 4 * red_flag(p.called),
                        2,
                    );
                }
            }
            return None;
        },
    };
    let d = pm.dir();
    let red = if pm.red() < 16 {
        normalize_pon(pm.red())
    } else {
        0
    };
    let r0 = red % 2 == 1;
    let r1 = (red / 2) % 2 == 1;
    let r2 = (red / 4) % 2 == 1;
    let own0 = if r0 {
        t.to_red()
    } else {
        t
    };
    let own1 = if r1 {
        t.to_red()
    } else {
        t
    };
    let called = if r2 {
        t.to_red()
    } else {
        t
    };
    let dp = Player::new(d);
    let result = Pon::from_tiles_dir(own0, own1, called, dp);
    proof {
        assert forall|p: Pon|
            p.wf() && (spec_packed_pon(p) == pm@ || spec_packed_pon(p) == spec_canon_packed(
                pm@,
            )) implies result == Some(p) by {
            let nib = red_flag(p.own0) + 2 * red_flag(p.own1) + 4 * red_flag(p.called);
            lemma_pm_extract(spec_normal(p.called@), p.dir@, nib, 2);
            assert(t@ == spec_normal(p.called@));
            // the own pair is sorted red-first, so its flags are a prefix
            assert(!(red_flag(p.own0) == 0 && red_flag(p.own1) == 1));
            assert(spec_normalize_pon(nib) == nib);
            assert(red as int == nib);
            // each parsed member tile coincides with the member of `p`
            assert(own0@ == p.own0@);
            assert(own1@ == p.own1@);
            assert(called@ == p.called@);
            Tile::lemma_eq(own0, p.own0);
            Tile::lemma_eq(own1, p.own1);
            Tile::lemma_eq(called, p.called);
            Player::lemma_eq(dp, p.dir);
            match result {
                Some(q) => {
                    if !(q.own0 == p.own0 && q.own1 == p.own1) {
                        assert(q.own0 == p.own1 && q.own1 == p.own0);
                        assert(spec_key(p.own0@) == spec_key(p.own1@));
                        assert(p.own0@ == p.own1@);
                        Tile::lemma_eq(p.own0, p.own1);
                    }
                    assert(q == p);
                },
                None => {
                    assert(false);
                },
            }
        }
    }
    result
}

/// Parses the packed form of a kakan (kind field 3): bits 0..3 of the red
/// nibble rebuild the pon, bit 3 the added tile.
fn parse_kakan(pm: PackedMeld) -> (r: Option<Kakan>)
    requires
        pm_kind(pm@) == 3,
    ensures
        r matches Some(k) ==> k.wf(),
        forall|k: Kakan|
            k.wf() && #[trigger] spec_packed_kakan(k) == pm@ ==> r == Some(k),
        forall|k: Kakan|
            k.wf() && #[trigger] spec_packed_kakan(k) == spec_canon_packed(pm@) ==> r == Some(k),
{
    proof {
        lemma_canon_fields(pm@);
    }
    let ghost gnib = |k: Kakan|
        red_flag(k.pon.own0) + 2 * red_flag(k.pon.own1) + 4 * red_flag(k.pon.called) + 8
            * red_flag(k.added);
    let t = match pm.get_tile() {
        Some(t) => t,
        None => {
            proof {
                assert forall|k: Kakan|
                    k.wf() && (spec_packed_kakan(k) == pm@ || spec_packed_kakan(k)
                        == spec_canon_packed(pm@)) implies false by {
                    lemma_pm_extract(spec_normal(k.pon.called@), k.pon.dir@, gnib(k), 3);
                }
            }
            return None;
        },
    };
    let d = pm.dir();
    let red = if pm.red() < 16 {
        normalize_kakan(pm.red())
    } else {
        0
    };
    let r0 = red % 2 == 1;
    let r1 = (red / 2) % 2 == 1;
    let r2 = (red / 4) % 2 == 1;
    let r3 = (red / 8) % 2 == 1;
    let own0 = if r0 {
        t.to_red()
    } else {
        t
    };
    let own1 = if r1 {
        t.to_red()
    } else {
        t
    };
    let called = if r2 {
        t.to_red()
    } else {
        t
    };
    let added = if r3 {
        t.to_red()
    } else {
        t
    };
    let dp = Player::new(d);
    let pon = match Pon::from_tiles_dir(own0, own1, called, dp) {
        Some(p) => p,
        None => {
            proof {
                assert forall|k: Kakan|
                    k.wf() && (spec_packed_kakan(k) == pm@ || spec_packed_kakan(k)
                        == spec_canon_packed(pm@)) implies false by {
                    lemma_pm_extract(spec_normal(k.pon.called@), k.pon.dir@, gnib(k), 3);
                }
            }
            return None;
        },
    };
    let result = Kakan::from_pon_added(pon, added);
    proof {
        assert forall|k: Kakan|
            k.wf() && (spec_packed_kakan(k) == pm@ || spec_packed_kakan(k) == spec_canon_packed(
                pm@,
            )) implies result == Some(k) by {
            let nib = gnib(k);
            lemma_pm_extract(spec_normal(k.pon.called@), k.pon.dir@, nib, 3);
            assert(t@ == spec_normal(k.pon.called@));
            assert(!(red_flag(k.pon.own0) == 0 && red_flag(k.pon.own1) == 1));
            assert(spec_normalize_kakan(nib) == nib);
            assert(red as int == nib);
            assert(own0@ == k.pon.own0@);
            assert(own1@ == k.pon.own1@);
            assert(called@ == k.pon.called@);
            assert(added@ == k.added@);
            Tile::lemma_eq(own0, k.pon.own0);
            Tile::lemma_eq(own1, k.pon.own1);
            Tile::lemma_eq(called, k.pon.called);
            Tile::lemma_eq(added, k.added);
            Player::lemma_eq(dp, k.pon.dir);
            if !(pon.own0 == k.pon.own0 && pon.own1 == k.pon.own1) {
                assert(pon.own0 == k.pon.own1 && pon.own1 == k.pon.own0);
                assert(spec_key(k.pon.own0@) == spec_key(k.pon.own1@));
                assert(k.pon.own0@ == k.pon.own1@);
                Tile::lemma_eq(k.pon.own0, k.pon.own1);
            }
            assert(pon == k.pon);
        }
    }
    result
}

/// Parses the packed form of a daiminkan (kind field 4): bits 0..3 of the
/// red nibble are the own tiles, bit 3 the called tile.
fn parse_daiminkan(pm: PackedMeld) -> (r: Option<Daiminkan>)
    requires
        pm_kind(pm@) == 4,
    ensures
        r matches Some(d) ==> d.wf(),
        forall|dm: Daiminkan|
            dm.wf() && #[trigger] spec_packed_daiminkan(dm) == pm@ ==> r == Some(dm),
        forall|dm: Daiminkan|
            dm.wf() && #[trigger] spec_packed_daiminkan(dm) == spec_canon_packed(pm@) ==> r
                == Some(dm),
{
    proof {
        lemma_canon_fields(pm@);
    }
    let ghost gnib = |dm: Daiminkan|
        red_flag(dm.own0) + 2 * red_flag(dm.own1) + 4 * red_flag(dm.own2) + 8 * red_flag(
            dm.called,
        );
    let t = match pm.get_tile() {
        Some(t) => t,
        None => {
            proof {
                assert forall|dm: Daiminkan|
                    dm.wf() && (spec_packed_daiminkan(dm) == pm@ || spec_packed_daiminkan(dm)
                        == spec_canon_packed(pm@)) implies false by {
                    lemma_pm_extract(spec_normal(dm.called@), dm.dir@, gnib(dm), 4);
                }
            }
            return None;
        },
    };
    let d = pm.dir();
    let red = if pm.red() < 16 {
        normalize_daiminkan(pm.red())
    } else {
        0
    };
    let r0 = red % 2 == 1;
    let r1 = (red / 2) % 2 == 1;
    let r2 = (red / 4) % 2 == 1;
    let r3 = (red / 8) % 2 == 1;
    let own0 = if r0 {
        t.to_red()
    } else {
        t
    };
    let own1 = if r1 {
        t.to_red()
    } else {
        t
    };
    let own2 = if r2 {
        t.to_red()
    } else {
        t
    };
    let called = if r3 {
        t.to_red()
    } else {
        t
    };
    let dp = Player::new(d);
    let result = Daiminkan::from_tiles_dir([own0, own1, own2], called, dp);
    proof {
        assert forall|dm: Daiminkan|
            dm.wf() && (spec_packed_daiminkan(dm) == pm@ || spec_packed_daiminkan(dm)
                == spec_canon_packed(pm@)) implies result == Some(dm) by {
            let nib = gnib(dm);
            lemma_pm_extract(spec_normal(dm.called@), dm.dir@, nib, 4);
            assert(t@ == spec_normal(dm.called@));
            // sorted red-first own triple: flags are a prefix of ones
            assert(red_flag(dm.own0) >= red_flag(dm.own1) >= red_flag(dm.own2));
            assert(spec_normalize_daiminkan(nib) == nib);
            assert(red as int == nib);
            assert(own0@ == dm.own0@);
            assert(own1@ == dm.own1@);
            assert(own2@ == dm.own2@);
            assert(called@ == dm.called@);
            Tile::lemma_eq(own0, dm.own0);
            Tile::lemma_eq(own1, dm.own1);
            Tile::lemma_eq(own2, dm.own2);
            Tile::lemma_eq(called, dm.called);
            Player::lemma_eq(dp, dm.dir);
            match result {
                Some(q) => {
                    // both triples are sorted listings of the same three
                    // tiles; ties are identical tiles, so they agree
                    assert(perm3(q.own0, q.own1, q.own2, dm.own0, dm.own1, dm.own2));
                    assert(spec_key(q.own0@) <= spec_key(q.own1@) <= spec_key(q.own2@));
                    assert(spec_key(dm.own0@) <= spec_key(dm.own1@) <= spec_key(dm.own2@));
                    lemma_sorted_triple_unique(
                        q.own0,
                        q.own1,
                        q.own2,
                        dm.own0,
                        dm.own1,
                        dm.own2,
                    );
                    Tile::lemma_eq(q.own0, dm.own0);
                    Tile::lemma_eq(q.own1, dm.own1);
                    Tile::lemma_eq(q.own2, dm.own2);
                    assert(q == dm);
                },
                None => {
                    assert(false);
                },
            }
        }
    }
    result
}

/// Two sorted listings of one triple of tiles coincide, provided tiles with
/// equal keys are equal (true of the members of one meld).
proof fn lemma_sorted_triple_unique(x0: Tile, x1: Tile, x2: Tile, y0: Tile, y1: Tile, y2: Tile)
    requires
        perm3(x0, x1, x2, y0, y1, y2),
        spec_key(x0@) <= spec_key(x1@) <= spec_key(x2@),
        spec_key(y0@) <= spec_key(y1@) <= spec_key(y2@),
        forall|a: Tile, b: Tile|
            #[trigger] spec_key(a@) == #[trigger] spec_key(b@) && (a == y0 || a == y1 || a == y2)
                && (b == y0 || b == y1 || b == y2) ==> a@ == b@,
    ensures
        x0@ == y0@ && x1@ == y1@ && x2@ == y2@,
{
}

/// Parses the packed form of an ankan (kind field 5): the four red-nibble
/// bits are the four own tiles.
fn parse_ankan(pm: PackedMeld) -> (r: Option<Ankan>)
    requires
        pm_kind(pm@) == 5,
    ensures
        r matches Some(a) ==> a.wf(),
        forall|a: Ankan|
            a.wf() && #[trigger] spec_packed_ankan(a) == pm@ ==> r == Some(a),
        forall|a: Ankan|
            a.wf() && #[trigger] spec_packed_ankan(a) == spec_canon_packed(pm@) ==> r == Some(a),
{
    proof {
        lemma_canon_fields(pm@);
    }
    let ghost gnib = |a: Ankan|
        red_flag(a.own0) + 2 * red_flag(a.own1) + 4 * red_flag(a.own2) + 8 * red_flag(a.own3);
    let t = match pm.get_tile() {
        Some(t) => t,
        None => {
            proof {
                assert forall|a: Ankan|
                    a.wf() && (spec_packed_ankan(a) == pm@ || spec_packed_ankan(a)
                        == spec_canon_packed(pm@)) implies false by {
                    lemma_pm_extract(spec_normal(a.own0@), 0, gnib(a), 5);
                }
            }
            return None;
        },
    };
    let red = if pm.red() < 16 {
        normalize_ankan(pm.red())
    } else {
        0
    };
    let r0 = red % 2 == 1;
    let r1 = (red / 2) % 2 == 1;
    let r2 = (red / 4) % 2 == 1;
    let r3 = (red / 8) % 2 == 1;
    let own0 = if r0 {
        t.to_red()
    } else {
        t
    };
    let own1 = if r1 {
        t.to_red()
    } else {
        t
    };
    let own2 = if r2 {
        t.to_red()
    } else {
        t
    };
    let own3 = if r3 {
        t.to_red()
    } else {
        t
    };
    let result = Some(Ankan { own0, own1, own2, own3 });
    proof {
        assert forall|a: Ankan|
            a.wf() && (spec_packed_ankan(a) == pm@ || spec_packed_ankan(a) == spec_canon_packed(
                pm@,
            )) implies result == Some(a) by {
            let nib = gnib(a);
            lemma_pm_extract(spec_normal(a.own0@), 0, nib, 5);
            assert(t@ == spec_normal(a.own0@));
            // sorted red-first own tiles: flags are a prefix of ones
            assert(red_flag(a.own0) >= red_flag(a.own1) >= red_flag(a.own2) >= red_flag(a.own3));
            assert(spec_normalize_ankan(nib) == nib);
            assert(red as int == nib);
            assert(own0@ == a.own0@);
            assert(own1@ == a.own1@);
            assert(own2@ == a.own2@);
            assert(own3@ == a.own3@);
            Tile::lemma_eq(own0, a.own0);
            Tile::lemma_eq(own1, a.own1);
            Tile::lemma_eq(own2, a.own2);
            Tile::lemma_eq(own3, a.own3);
        }
    }
    result
}

/// The red flag of a chii: 1 when any member is a red five.
pub open spec fn chii_red_flag(c: Chii) -> int {
    if spec_is_red(c.own0@) || spec_is_red(c.own1@) || spec_is_red(c.called@) {
        1
    } else {
        0
    }
}

/// A member tile of a valid chii is determined by its normal form and the
/// run's shared red flag: the red member (if any) is the run's unique five.
proof fn lemma_chii_member(c: Chii, x: Tile)
    requires
        c.wf(),
        x == c.own0 || x == c.own1 || x == c.called,
    ensures
        chii_red_flag(c) == 1 ==> x@ == spec_to_red(spec_normal(x@)),
        chii_red_flag(c) == 0 ==> x@ == spec_normal(x@),
{
    let n0 = spec_normal(c.own0@);
    let n1 = spec_normal(c.own1@);
    let nc = spec_normal(c.called@);
    assert(n0 != n1 && n0 != nc && n1 != nc);
    let n = spec_normal(x@);
    if chii_red_flag(c) == 0 {
        assert(!spec_is_red(x@));
    } else {
        if spec_is_red(x@) {
            assert(x@ == spec_to_red(n));
        } else {
            assert(x@ == n);
            if n == 4 || n == 13 || n == 22 {
                // some member is red, its normal is the same five --
                // contradicting distinct member normals
                if spec_is_red(c.own0@) {
                    assert(spec_suit(n0) == spec_suit(n));
                    assert(n0 == n);
                    assert(false);
                } else if spec_is_red(c.own1@) {
                    assert(spec_suit(n1) == spec_suit(n));
                    assert(n1 == n);
                    assert(false);
                } else {
                    assert(spec_is_red(c.called@));
                    assert(spec_suit(nc) == spec_suit(n));
                    assert(nc == n);
                    assert(false);
                }
            } else {
                assert(spec_to_red(n) == n);
            }
        }
    }
}

/// Parses the packed form of a chii (kind field 1): the anchor is the run's
/// smallest tile, `dir` picks the called member, and a nonzero red nibble
/// paints the run's five (if any) red.
#[verifier::rlimit(100)]
fn parse_chii(pm: PackedMeld) -> (r: Option<Chii>)
    requires
        pm_kind(pm@) == 1,
    ensures
        r matches Some(c) ==> c.wf(),
        forall|c: Chii|
            c.wf() && #[trigger] spec_packed_chii(c) == pm@ ==> r == Some(c),
        forall|c: Chii|
            c.wf() && #[trigger] spec_packed_chii(c) == spec_canon_packed(pm@) ==> r == Some(c),
{
    proof {
        lemma_canon_fields(pm@);
        assert forall|c: Chii|
            c.wf() && (spec_packed_chii(c) == pm@ || spec_packed_chii(c) == spec_canon_packed(
                pm@,
            )) implies {
            &&& 0 <= c.min@ < 27
            &&& 0 <= c.spec_dir() < 3
            &&& pm_tile(pm@) == c.min@
            &&& pm_dir(pm@) == c.spec_dir()
            &&& chii_red_flag(c) == (if pm_red(pm@) > 0 {
                1int
            } else {
                0int
            })
            &&& spec_normal(c.called@) == c.min@ + c.spec_dir()
            &&& spec_num(c.min@) <= 7
        } by {
            lemma_chii_shape(c);
            lemma_pm_extract(c.min@, c.spec_dir(), chii_red_flag(c), 1);
        }
    }
    let t = match pm.get_tile() {
        Some(t) => t,
        None => {
            return None;
        },
    };
    if t.suit() >= 3 || t.num() >= 8 {
        return None;
    }
    let b = match t.succ() {
        Some(b) => b,
        None => {
            return None;
        },
    };
    let c2 = match b.succ() {
        Some(c2) => c2,
        None => {
            return None;
        },
    };
    let any_red = pm.red() > 0;
    let (a3, b3, c3) = if any_red {
        (t.to_red(), b.to_red(), c2.to_red())
    } else {
        (t, b, c2)
    };
    let d = pm.dir();
    let result = if d == 0 {
        Chii::from_tiles(b3, c3, a3)
    } else if d == 1 {
        Chii::from_tiles(a3, c3, b3)
    } else if d == 2 {
        Chii::from_tiles(a3, b3, c3)
    } else {
        None
    };
    proof {
        assert forall|c: Chii|
            c.wf() && (spec_packed_chii(c) == pm@ || spec_packed_chii(c) == spec_canon_packed(
                pm@,
            )) implies result == Some(c) by {
            lemma_chii_shape(c);
            lemma_pm_extract(c.min@, c.spec_dir(), chii_red_flag(c), 1);
            lemma_canon_fields(pm@);
            let m = c.min@;
            assert(t@ == m);
            assert(b@ == m + 1 && c3.wf() && b3.wf() && a3.wf());
            assert(c2@ == m + 2);
            lemma_chii_member(c, c.own0);
            lemma_chii_member(c, c.own1);
            lemma_chii_member(c, c.called);
            // parsed tiles by normal position
            assert(a3@ == (if chii_red_flag(c) == 1 {
                spec_to_red(m)
            } else {
                m
            }));
            assert(b3@ == (if chii_red_flag(c) == 1 {
                spec_to_red(m + 1)
            } else {
                m + 1
            }));
            assert(c3@ == (if chii_red_flag(c) == 1 {
                spec_to_red(m + 2)
            } else {
                m + 2
            }));
            let dv = c.spec_dir();
            assert(spec_normal(c.called@) == m + dv);
            let n0 = spec_normal(c.own0@);
            let n1 = spec_normal(c.own1@);
            // identify each member with its parsed counterpart
            let called_p = if dv == 0 {
                a3
            } else if dv == 1 {
                b3
            } else {
                c3
            };
            assert(called_p@ == c.called@);
            Tile::lemma_eq(called_p, c.called);
            let ch = result.unwrap();
            assert(result is Some);
            assert(ch.called == c.called);
            assert(ch.min@ == m);
            Tile::lemma_eq(ch.min, c.min);
            // own pairs: same two tiles, both sorted by distinct keys
            let o0 = if dv == 0 {
                b3
            } else {
                a3
            };
            let o1 = if dv == 2 {
                b3
            } else {
                c3
            };
            assert((o0@ == c.own0@ && o1@ == c.own1@) || (o0@ == c.own1@ && o1@ == c.own0@));
            assert((ch.own0 == o0 && ch.own1 == o1) || (ch.own0 == o1 && ch.own1 == o0));
            assert(spec_key(c.own0@) != spec_key(c.own1@));
            assert(ch.own0@ == c.own0@ && ch.own1@ == c.own1@);
            Tile::lemma_eq(ch.own0, c.own0);
            Tile::lemma_eq(ch.own1, c.own1);
            assert(ch == c);
        }
    }
    result
}

/// Shape facts of a valid chii: its anchor sits low in a numbered suit, the
/// called member is `min + dir` with `dir` in 0..3, and the run stays
/// within the suit.
proof fn lemma_chii_shape(c: Chii)
    requires
        c.wf(),
    ensures
        0 <= c.min@ < 27,
        0 <= c.spec_dir() < 3,
        spec_normal(c.called@) == c.min@ + c.spec_dir(),
        spec_num(c.min@) <= 7,
        0 <= chii_red_flag(c) <= 1,
        spec_normal(c.own0@) != spec_normal(c.own1@),
{
    let n0 = spec_normal(c.own0@);
    let n1 = spec_normal(c.own1@);
    let nc = spec_normal(c.called@);
    let m = c.min@;
    assert(spec_suit(c.own0@) == spec_suit(n0));
    assert(spec_suit(c.own1@) == spec_suit(n1));
    assert(spec_suit(c.called@) == spec_suit(nc));
    assert(n0 < 27 && n1 < 27 && nc < 27);
    assert(m == n0 || m == n1 || m == nc);
    assert(nc == m || nc == m + 1 || nc == m + 2);
    assert(m / 9 == (m + 2) / 9 || m + 2 == nc || (m + 2 == n0 || m + 2 == n1)) by {
    }
    // the whole run lies in one suit, so numbers do not wrap
    let hi = if nc == m + 2 {
        nc
    } else if n0 == m + 2 {
        n0
    } else {
        n1
    };
    assert(hi == m + 2);
    assert(spec_suit(hi) == spec_suit(m));
    assert(m % 9 + 2 == (m + 2) % 9) by (nonlinear_arith)
        requires
            0 <= m,
            m < 27,
            m + 2 < 27,
            m / 9 == (m + 2) / 9,
    ;
    assert(spec_num(m) + 2 <= 9);
    assert(c.spec_dir() == nc - m);
}

impl Meld {
    /// Parses the packed 16-bit form.
    ///
    /// The round-trip law: for every valid meld `m`,
    /// `Meld::from_packed(m.packed())` returns `Some(m)` -- stated here as
    /// the quantified postcondition over `spec_packed`. The red flags are
    /// normalized on the way in, so a packing that differs only in a
    /// non-canonical red nibble parses to the same meld. A packed value of
    /// 0 never parses (the kind field 0 is reserved).
    pub fn from_packed(packed: u16) -> (r: Option<Meld>)
        ensures
            r matches Some(m) ==> m.wf(),
            forall|m: Meld|
                m.wf() && #[trigger] spec_packed(m) == packed as int ==> r == Some(m),
            forall|m: Meld|
                m.wf() && #[trigger] spec_packed(m) == spec_canon_packed(packed as int) ==> r
                    == Some(m),
            packed == 0 ==> r is None,
    {
        let pm = PackedMeld::new(packed);
        let k = pm.kind();
        let result = if k == 1 {
            match parse_chii(pm) {
                Some(c) => Some(Meld::Chii(c)),
                None => None,
            }
        } else if k == 2 {
            match parse_pon(pm) {
                Some(p) => Some(Meld::Pon(p)),
                None => None,
            }
        } else if k == 3 {
            match parse_kakan(pm) {
                Some(kk) => Some(Meld::Kakan(kk)),
                None => None,
            }
        } else if k == 4 {
            match parse_daiminkan(pm) {
                Some(d) => Some(Meld::Daiminkan(d)),
                None => None,
            }
        } else if k == 5 {
            match parse_ankan(pm) {
                Some(a) => Some(Meld::Ankan(a)),
                None => None,
            }
        } else {
            None
        };
        proof {
            lemma_canon_fields(packed as int);
            assert forall|m: Meld|
                m.wf() && (spec_packed(m) == packed as int || spec_packed(m) == spec_canon_packed(
                    packed as int,
                )) implies result == Some(m) by {
                match m {
                    Meld::Chii(c) => {
                        lemma_chii_shape(c);
                        lemma_pm_extract(c.min@, c.spec_dir(), chii_red_flag(c), 1);
                    },
                    Meld::Pon(p) => {
                        lemma_pm_extract(
                            spec_normal(p.called@),
                            p.dir@,
                            red_flag(p.own0) + 2 * red_flag(p.own1) + 4 * red_flag(p.called),
                            2,
                        );
                    },
                    Meld::Kakan(kk) => {
                        lemma_pm_extract(
                            spec_normal(kk.pon.called@),
                            kk.pon.dir@,
                            red_flag(kk.pon.own0) + 2 * red_flag(kk.pon.own1) + 4 * red_flag(
                                kk.pon.called,
                            ) + 8 * red_flag(kk.added),
                            3,
                        );
                    },
                    Meld::Daiminkan(d) => {
                        lemma_pm_extract(
                            spec_normal(d.called@),
                            d.dir@,
                            red_flag(d.own0) + 2 * red_flag(d.own1) + 4 * red_flag(d.own2) + 8
                                * red_flag(d.called),
                            4,
                        );
                    },
                    Meld::Ankan(a) => {
                        lemma_pm_extract(
                            spec_normal(a.own0@),
                            0,
                            red_flag(a.own0) + 2 * red_flag(a.own1) + 4 * red_flag(a.own2) + 8
                                * red_flag(a.own3),
                            5,
                        );
                    },
                }
            }
        }
        result
    }
}

// ---------------------------------------------------------------------------
// Display
// ---------------------------------------------------------------------------
/// The glyph of a chii: `C`, the called number first, then the own numbers,
/// then the suit letter (red fives print as 0).
pub open spec fn spec_chii_str(c: Chii) -> Seq<char> {
    seq![
        'C',
        spec_digit_char(spec_num(c.called@)),
        spec_digit_char(spec_num(c.own0@)),
        spec_digit_char(spec_num(c.own1@)),
        spec_suit_char(c.called@),
    ]
}

/// The glyph of a pon: the own numbers in order with `P` and the called
/// number spliced in at the discarder's relative seat.
pub open spec fn spec_pon_str(p: Pon) -> Seq<char> {
    let n0 = spec_digit_char(spec_num(p.own0@));
    let n1 = spec_digit_char(spec_num(p.own1@));
    let nc = spec_digit_char(spec_num(p.called@));
    let s = spec_suit_char(p.called@);
    if p.dir@ == 1 {
        seq![n0, n1, 'P', nc, s]
    } else if p.dir@ == 2 {
        seq![n0, 'P', nc, n1, s]
    } else {
        seq!['P', nc, n0, n1, s]
    }
}

/// The glyph of a kakan: as the pon, with `K` and the added number after
/// the called number.
pub open spec fn spec_kakan_str(k: Kakan) -> Seq<char> {
    let n0 = spec_digit_char(spec_num(k.pon.own0@));
    let n1 = spec_digit_char(spec_num(k.pon.own1@));
    let nc = spec_digit_char(spec_num(k.pon.called@));
    let na = spec_digit_char(spec_num(k.added@));
    let s = spec_suit_char(k.added@);
    if k.pon.dir@ == 1 {
        seq![n0, n1, 'K', nc, na, s]
    } else if k.pon.dir@ == 2 {
        seq![n0, 'K', nc, na, n1, s]
    } else {
        seq!['K', nc, na, n0, n1, s]
    }
}

/// The glyph of a daiminkan: the own numbers in order with `D` and the
/// called number spliced in at the discarder's relative seat.
pub open spec fn spec_daiminkan_str(d: Daiminkan) -> Seq<char> {
    let n0 = spec_digit_char(spec_num(d.own0@));
    let n1 = spec_digit_char(spec_num(d.own1@));
    let n2 = spec_digit_char(spec_num(d.own2@));
    let nc = spec_digit_char(spec_num(d.called@));
    let s = spec_suit_char(d.called@);
    if d.dir@ == 1 {
        seq![n0, n1, n2, 'D', nc, s]
    } else if d.dir@ == 2 {
        seq![n0, 'D', nc, n1, n2, s]
    } else {
        seq!['D', nc, n0, n1, n2, s]
    }
}

/// The glyph of an ankan: `A` and the four own numbers.
pub open spec fn spec_ankan_str(a: Ankan) -> Seq<char> {
    seq![
        'A',
        spec_digit_char(spec_num(a.own0@)),
        spec_digit_char(spec_num(a.own1@)),
        spec_digit_char(spec_num(a.own2@)),
        spec_digit_char(spec_num(a.own3@)),
        spec_suit_char(a.own0@),
    ]
}

/// The glyph of a meld; the five kinds' glyphs are pairwise distinct.
pub open spec fn spec_meld_str(m: Meld) -> Seq<char> {
    match m {
        Meld::Chii(c) => spec_chii_str(c),
        Meld::Pon(p) => spec_pon_str(p),
        Meld::Kakan(k) => spec_kakan_str(k),
        Meld::Daiminkan(d) => spec_daiminkan_str(d),
        Meld::Ankan(a) => spec_ankan_str(a),
    }
}

impl Chii {
    /// Renders the glyph, e.g. `"C046s"`.
    pub fn to_string(self) -> (r: String)
        requires
            self.wf(),
        ensures
            r@ =~= spec_chii_str(self),
    {
        proof {
            reveal_strlit("C");
        }
        let mut out = String::new();
        out.append("C");
        out.append(digit_str(self.called.num()));
        out.append(digit_str(self.own0.num()));
        out.append(digit_str(self.own1.num()));
        out.append(self.called.suit_str());
        out
    }
}

impl Pon {
    /// Renders the glyph, e.g. `"0P05p"`.
    pub fn to_string(self) -> (r: String)
        requires
            self.wf(),
        ensures
            r@ =~= spec_pon_str(self),
    {
        proof {
            reveal_strlit("P");
        }
        let n0 = digit_str(self.own0.num());
        let n1 = digit_str(self.own1.num());
        let nc = digit_str(self.called.num());
        let s = self.called.suit_str();
        let mut out = String::new();
        let d = self.dir.to_u8();
        if d == 1 {
            out.append(n0);
            out.append(n1);
            out.append("P");
            out.append(nc);
        } else if d == 2 {
            out.append(n0);
            out.append("P");
            out.append(nc);
            out.append(n1);
        } else {
            out.append("P");
            out.append(nc);
            out.append(n0);
            out.append(n1);
        }
        out.append(s);
        out
    }
}

impl Kakan {
    /// Renders the glyph, e.g. `"5K550p"`.
    pub fn to_string(self) -> (r: String)
        requires
            self.wf(),
        ensures
            r@ =~= spec_kakan_str(self),
    {
        proof {
            reveal_strlit("K");
        }
        let n0 = digit_str(self.pon.own0.num());
        let n1 = digit_str(self.pon.own1.num());
        let nc = digit_str(self.pon.called.num());
        let na = digit_str(self.added.num());
        let s = self.added.suit_str();
        let mut out = String::new();
        let d = self.pon.dir.to_u8();
        if d == 1 {
            out.append(n0);
            out.append(n1);
            out.append("K");
            out.append(nc);
            out.append(na);
        } else if d == 2 {
            out.append(n0);
            out.append("K");
            out.append(nc);
            out.append(na);
            out.append(n1);
        } else {
            out.append("K");
            out.append(nc);
            out.append(na);
            out.append(n0);
            out.append(n1);
        }
        out.append(s);
        out
    }
}

impl Daiminkan {
    /// Renders the glyph, e.g. `"5D550p"`.
    pub fn to_string(self) -> (r: String)
        requires
            self.wf(),
        ensures
            r@ =~= spec_daiminkan_str(self),
    {
        proof {
            reveal_strlit("D");
        }
        let n0 = digit_str(self.own0.num());
        let n1 = digit_str(self.own1.num());
        let n2 = digit_str(self.own2.num());
        let nc = digit_str(self.called.num());
        let s = self.called.suit_str();
        let mut out = String::new();
        let d = self.dir.to_u8();
        if d == 1 {
            out.append(n0);
            out.append(n1);
            out.append(n2);
            out.append("D");
            out.append(nc);
        } else if d == 2 {
            out.append(n0);
            out.append("D");
            out.append(nc);
            out.append(n1);
            out.append(n2);
        } else {
            out.append("D");
            out.append(nc);
            out.append(n0);
            out.append(n1);
            out.append(n2);
        }
        out.append(s);
        out
    }
}

impl Ankan {
    /// Renders the glyph, e.g. `"A5550p"`.
    pub fn to_string(self) -> (r: String)
        requires
            self.wf(),
        ensures
            r@ =~= spec_ankan_str(self),
    {
        proof {
            reveal_strlit("A");
        }
        let mut out = String::new();
        out.append("A");
        out.append(digit_str(self.own0.num()));
        out.append(digit_str(self.own1.num()));
        out.append(digit_str(self.own2.num()));
        out.append(digit_str(self.own3.num()));
        out.append(self.own0.suit_str());
        out
    }
}

impl Meld {
    /// Renders the meld's glyph; each kind's format is already distinct, so
    /// this simply dispatches.
    pub fn to_string(&self) -> (r: String)
        requires
            self.wf(),
        ensures
            r@ =~= spec_meld_str(*self),
    {
        match self {
            Meld::Chii(c) => c.to_string(),
            Meld::Pon(p) => p.to_string(),
            Meld::Kakan(k) => k.to_string(),
            Meld::Daiminkan(d) => d.to_string(),
            Meld::Ankan(a) => a.to_string(),
        }
    }
}

/// Both the normal and the red slot of the kind of `e` are cleared; all
/// other slots are unchanged.
pub open spec fn kan_cleared(before: Seq<u8>, after: Seq<u8>, e: int) -> bool {
    &&& after[spec_normal(e)] == 0
    &&& after[spec_to_red(spec_normal(e))] == 0
    &&& forall|x: int|
        0 <= x < 37 && x != spec_normal(e) && x != spec_to_red(spec_normal(e)) ==> after[x]
            == before[x]
}

} // verus!
