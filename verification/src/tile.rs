//! Tiles and their 37-way encoding.
//!
//! Encodings `0..27` are the suited tiles (9 characters, 9 circles, 9 bamboo),
//! `27..34` the honors (E, S, W, N, white, green, red), and `34..37` the three
//! red fives (0m, 0p, 0s).

use vstd::prelude::*;

verus! {

/// Is `e` a valid 37-way tile encoding?
pub open spec fn tile_valid(e: int) -> bool {
    0 <= e < 37
}

/// Suit of encoding `e`: 0 = characters (m), 1 = circles (p), 2 = bamboo (s), 3 = honors (z).
pub open spec fn spec_suit(e: int) -> int {
    if e < 27 {
        e / 9
    } else if e < 34 {
        3
    } else {
        e - 34
    }
}

/// Displayed number of encoding `e`; red fives display as 0.
pub open spec fn spec_num(e: int) -> int {
    if e >= 34 {
        0
    } else if e < 27 {
        e % 9 + 1
    } else {
        e - 27 + 1
    }
}

/// Number of encoding `e` with red fives folded back to 5.
pub open spec fn spec_normal_num(e: int) -> int {
    if e >= 34 {
        5
    } else {
        spec_num(e)
    }
}

/// The normal (red-folded) encoding of `e`.
pub open spec fn spec_normal(e: int) -> int {
    if e == 34 {
        4
    } else if e == 35 {
        13
    } else if e == 36 {
        22
    } else {
        e
    }
}

/// Is `e` one of the three red fives?
pub open spec fn spec_is_red(e: int) -> bool {
    e >= 34
}

/// The red variant of `e`: maps the three normal fives to their red forms,
/// everything else to itself.
pub open spec fn spec_to_red(e: int) -> int {
    if e == 4 {
        34
    } else if e == 13 {
        35
    } else if e == 22 {
        36
    } else {
        e
    }
}

/// Sort key: suit first, then displayed number, so a red five sorts
/// immediately before the 1 of nothing -- i.e. first within its suit.
pub open spec fn spec_key(e: int) -> int {
    spec_suit(e) * 10 + spec_num(e)
}

/// Is `e` a terminal (1 or 9 of a suit) or an honor?
pub open spec fn spec_is_terminal_or_honor(e: int) -> bool {
    spec_suit(e) == 3 || spec_num(e) == 1 || spec_num(e) == 9
}

/// One mahjong tile, identified by its 37-way encoding.
#[derive(Clone, Copy, Debug, PartialEq, Eq, Structural, Hash)]
pub struct Tile {
    enc: u8,
}

impl View for Tile {
    type V = int;

    /// The 37-way encoding of the tile.
    closed spec fn view(&self) -> int {
        self.enc as int
    }
}

impl Tile {
    /// Validity: the encoding is one of the 37 tile kinds.
    pub open spec fn wf(self) -> bool {
        tile_valid(self@)
    }

    /// Two tiles with the same encoding are the same tile.
    pub proof fn lemma_eq(a: Tile, b: Tile)
        requires
            a@ == b@,
        ensures
            a == b,
    {
    }

    /// The tile with encoding 0 (the 1 of characters); a handy fill value.
    pub fn first() -> (r: Tile)
        ensures
            r@ == 0,
            r.wf(),
    {
        Tile { enc: 0 }
    }

    /// Constructs a tile from its 37-way encoding.
    pub fn from_encoding(e: u8) -> (r: Option<Tile>)
        ensures
            tile_valid(e as int) ==> (r matches Some(t) && t@ == e as int && t.wf()),
            !tile_valid(e as int) ==> r is None,
    {
        if e < 37 {
            Some(Tile { enc: e })
        } else {
            None
        }
    }

    /// Constructs a tile from its normal (34-way) encoding.
    pub fn from_normal_encoding(e: u8) -> (r: Option<Tile>)
        ensures
            0 <= e < 34 ==> (r matches Some(t) && t@ == e as int && t.wf()),
            !(0 <= e < 34) ==> r is None,
    {
        if e < 34 {
            Some(Tile { enc: e })
        } else {
            None
        }
    }

    /// The 37-way encoding.
    pub fn encoding(self) -> (r: u8)
        ensures
            r as int == self@,
    {
        self.enc
    }

    /// The 34-way encoding (red fives folded into normal fives).
    pub fn normal_encoding(self) -> (r: u8)
        ensures
            r as int == spec_normal(self@),
    {
        if self.enc == 34 {
            4
        } else if self.enc == 35 {
            13
        } else if self.enc == 36 {
            22
        } else {
            self.enc
        }
    }

    /// Suit: 0 = m, 1 = p, 2 = s, 3 = z.
    pub fn suit(self) -> (r: u8)
        ensures
            r as int == spec_suit(self@),
    {
        if self.enc < 27 {
            self.enc / 9
        } else if self.enc < 34 {
            3
        } else {
            self.enc - 34
        }
    }

    /// Displayed number (red fives display as 0).
    pub fn num(self) -> (r: u8)
        ensures
            r as int == spec_num(self@),
    {
        if self.enc >= 34 {
            0
        } else if self.enc < 27 {
            self.enc % 9 + 1
        } else {
            self.enc - 27 + 1
        }
    }

    /// Number with red fives treated as 5.
    pub fn normal_num(self) -> (r: u8)
        ensures
            r as int == spec_normal_num(self@),
    {
        if self.enc >= 34 {
            5
        } else {
            self.num()
        }
    }

    /// Is this one of the three red fives?
    pub fn is_red(self) -> (r: bool)
        ensures
            r == spec_is_red(self@),
    {
        self.enc >= 34
    }

    /// This tile with red folded to normal.
    pub fn to_normal(self) -> (r: Tile)
        ensures
            r@ == spec_normal(self@),
            self.wf() ==> r.wf(),
    {
        Tile { enc: self.normal_encoding() }
    }

    /// The red variant of this tile (identity unless it is a normal five).
    pub fn to_red(self) -> (r: Tile)
        ensures
            r@ == spec_to_red(self@),
            self.wf() ==> r.wf(),
    {
        if self.enc == 4 {
            Tile { enc: 34 }
        } else if self.enc == 13 {
            Tile { enc: 35 }
        } else if self.enc == 22 {
            Tile { enc: 36 }
        } else {
            self
        }
    }

    /// The next number in the same suit; `None` at 9 or on honors.
    pub fn succ(self) -> (r: Option<Tile>)
        requires
            self.wf(),
        ensures
            (spec_suit(self@) < 3 && spec_normal_num(self@) < 9) <==> (r is Some),
            r matches Some(t) ==> t@ == spec_normal(self@) + 1 && t.wf(),
    {
        let n = self.normal_encoding();
        if self.suit() < 3 && self.normal_num() < 9 {
            Some(Tile { enc: n + 1 })
        } else {
            None
        }
    }

    /// Sort key used to order tiles within a meld (red five first in its suit).
    pub fn key(self) -> (r: u8)
        requires
            self.wf(),
        ensures
            r as int == spec_key(self@),
    {
        self.suit() * 10 + self.num()
    }

    /// Is this a terminal (1 or 9) or an honor?
    pub fn is_terminal_or_honor(self) -> (r: bool)
        ensures
            r == spec_is_terminal_or_honor(self@),
    {
        self.suit() == 3 || self.num() == 1 || self.num() == 9
    }

    /// The suit letter: m, p, s, or z.
    pub fn suit_char(self) -> (r: char)
        ensures
            r == spec_suit_char(self@),
    {
        let s = self.suit();
        if s == 0 {
            'm'
        } else if s == 1 {
            'p'
        } else if s == 2 {
            's'
        } else {
            'z'
        }
    }

    /// Parses a single tile glyph such as `"5m"` or `"0p"` (0 = red five).
    pub fn from_str(text: &str) -> (r: Option<Tile>)
        ensures
            r matches Some(t) ==> t.wf(),
    {
        let b = text.as_bytes();
        if b.len() != 2 {
            return None;
        }
        let d = b[0];
        let l = b[1];
        if d < 48 || d > 57 {
            return None;
        }
        tile_from_parts(l, d - 48)
    }
}

/// The digit character for `n` (0..=9).
pub open spec fn spec_digit_char(n: int) -> char {
    if n == 0 {
        '0'
    } else if n == 1 {
        '1'
    } else if n == 2 {
        '2'
    } else if n == 3 {
        '3'
    } else if n == 4 {
        '4'
    } else if n == 5 {
        '5'
    } else if n == 6 {
        '6'
    } else if n == 7 {
        '7'
    } else if n == 8 {
        '8'
    } else {
        '9'
    }
}

/// A one-character string slice for the digit `n`.
pub fn digit_str(n: u8) -> (r: &'static str)
    requires
        n <= 9,
    ensures
        r@ =~= seq![spec_digit_char(n as int)],
{
    proof {
        reveal_strlit("0");
        reveal_strlit("1");
        reveal_strlit("2");
        reveal_strlit("3");
        reveal_strlit("4");
        reveal_strlit("5");
        reveal_strlit("6");
        reveal_strlit("7");
        reveal_strlit("8");
        reveal_strlit("9");
    }
    if n == 0 {
        "0"
    } else if n == 1 {
        "1"
    } else if n == 2 {
        "2"
    } else if n == 3 {
        "3"
    } else if n == 4 {
        "4"
    } else if n == 5 {
        "5"
    } else if n == 6 {
        "6"
    } else if n == 7 {
        "7"
    } else if n == 8 {
        "8"
    } else {
        "9"
    }
}

impl Tile {
    /// A one-character string slice for the tile's suit letter.
    pub fn suit_str(self) -> (r: &'static str)
        ensures
            r@ =~= seq![spec_suit_char(self@)],
    {
        proof {
            reveal_strlit("m");
            reveal_strlit("p");
            reveal_strlit("s");
            reveal_strlit("z");
        }
        let s = self.suit();
        if s == 0 {
            "m"
        } else if s == 1 {
            "p"
        } else if s == 2 {
            "s"
        } else {
            "z"
        }
    }

    /// The tile's glyph, e.g. `"5m"`, `"0p"` (red five), `"3z"`.
    pub fn to_string(self) -> (r: String)
        requires
            self.wf(),
        ensures
            r@ =~= seq![spec_digit_char(spec_num(self@)), spec_suit_char(self@)],
    {
        let mut out = String::new();
        out.append(digit_str(self.num()));
        out.append(self.suit_str());
        out
    }
}

/// The suit letter of encoding `e`.
pub open spec fn spec_suit_char(e: int) -> char {
    if spec_suit(e) == 0 {
        'm'
    } else if spec_suit(e) == 1 {
        'p'
    } else if spec_suit(e) == 2 {
        's'
    } else {
        'z'
    }
}

/// Makes a tile from a suit letter (`m p s z` as ASCII) and a displayed number
/// (0 stands for the red five of a numbered suit).
fn tile_from_parts(letter: u8, d: u8) -> (r: Option<Tile>)
    requires
        d <= 9,
    ensures
        r matches Some(t) ==> t.wf(),
{
    let suit: u8 = if letter == 109 {
        0
    } else if letter == 112 {
        1
    } else if letter == 115 {
        2
    } else if letter == 122 {
        3
    } else {
        return None;
    };
    if suit == 3 {
        if 1 <= d && d <= 7 {
            Some(Tile { enc: 27 + d - 1 })
        } else {
            None
        }
    } else if d == 0 {
        Some(Tile { enc: 34 + suit })
    } else {
        Some(Tile { enc: suit * 9 + d - 1 })
    }
}

/// Parses a concatenated hand string such as `"147m258p369s77z"`:
/// digits accumulate and the following suit letter applies to all of them.
/// Malformed characters are skipped.
pub fn tiles_from_str(text: &str) -> (r: Vec<Tile>)
    ensures
        forall|i: int| 0 <= i < r@.len() ==> (#[trigger] r@[i]).wf(),
{
    let b = text.as_bytes();
    let mut out: Vec<Tile> = Vec::new();
    let mut pending: Vec<u8> = Vec::new();
    let mut i: usize = 0;
    while i < b.len()
        invariant
            forall|k: int| 0 <= k < out@.len() ==> (#[trigger] out@[k]).wf(),
            forall|k: int| 0 <= k < pending@.len() ==> #[trigger] pending@[k] <= 9,
        decreases b.len() - i,
    {
        let c = b[i];
        if 48 <= c && c <= 57 {
            pending.push(c - 48);
        } else {
            let mut j: usize = 0;
            while j < pending.len()
                invariant
                    forall|k: int| 0 <= k < out@.len() ==> (#[trigger] out@[k]).wf(),
                    forall|k: int| 0 <= k < pending@.len() ==> #[trigger] pending@[k] <= 9,
                decreases pending.len() - j,
            {
                if let Some(t) = tile_from_parts(c, pending[j]) {
                    out.push(t);
                }
                j += 1;
            }
            pending.clear();
        }
        i += 1;
    }
    out
}

/// Sorts two tiles by their key (suit, then displayed number).
pub fn sort2(a: Tile, b: Tile) -> (r: (Tile, Tile))
    requires
        a.wf(),
        b.wf(),
    ensures
        spec_key(r.0@) <= spec_key(r.1@),
        (r.0 == a && r.1 == b) || (r.0 == b && r.1 == a),
{
    if a.key() <= b.key() {
        (a, b)
    } else {
        (b, a)
    }
}

/// Sorts three tiles by their key (suit, then displayed number).
pub fn sort3(a: Tile, b: Tile, c: Tile) -> (r: (Tile, Tile, Tile))
    requires
        a.wf(),
        b.wf(),
        c.wf(),
    ensures
        spec_key(r.0@) <= spec_key(r.1@) <= spec_key(r.2@),
        (r.0 == a && r.1 == b && r.2 == c) || (r.0 == a && r.1 == c && r.2 == b)
            || (r.0 == b && r.1 == a && r.2 == c) || (r.0 == b && r.1 == c && r.2 == a)
            || (r.0 == c && r.1 == a && r.2 == b) || (r.0 == c && r.1 == b && r.2 == a),
{
    let (x, y) = sort2(a, b);
    let (y2, z) = sort2(y, c);
    let (x2, y3) = sort2(x, y2);
    (x2, y3, z)
}

} // verus!
