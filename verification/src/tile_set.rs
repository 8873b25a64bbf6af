//! Unordered multisets of tiles, represented as fixed-size histograms.
//!
//! [`TileSet37`] counts the 37 encodings separately (red fives have their own
//! slots); [`TileSet34`] folds the red fives into the normal fives.

use vstd::prelude::*;

use crate::tile::{Tile, spec_normal, tile_valid};

verus! {

/// Number of tiles in `s` whose 37-way encoding is `e`.
pub open spec fn count_enc(s: Seq<Tile>, e: int) -> int
    decreases s.len(),
{
    if s.len() == 0 {
        0
    } else {
        count_enc(s.drop_last(), e) + if s.last()@ == e {
            1int
        } else {
            0int
        }
    }
}

/// Number of tiles in `s` whose normal (red-folded) encoding is `e`.
pub open spec fn count_norm(s: Seq<Tile>, e: int) -> int
    decreases s.len(),
{
    if s.len() == 0 {
        0
    } else {
        count_norm(s.drop_last(), e) + if spec_normal(s.last()@) == e {
            1int
        } else {
            0int
        }
    }
}

pub proof fn lemma_count_enc_push(s: Seq<Tile>, t: Tile, e: int)
    ensures
        count_enc(s.push(t), e) == count_enc(s, e) + if t@ == e {
            1int
        } else {
            0int
        },
{
    assert(s.push(t).drop_last() =~= s);
}

pub proof fn lemma_count_norm_push(s: Seq<Tile>, t: Tile, e: int)
    ensures
        count_norm(s.push(t), e) == count_norm(s, e) + if spec_normal(t@) == e {
            1int
        } else {
            0int
        },
{
    assert(s.push(t).drop_last() =~= s);
}

pub proof fn lemma_count_enc_le_len(s: Seq<Tile>, e: int)
    ensures
        0 <= count_enc(s, e) <= s.len(),
    decreases s.len(),
{
    if s.len() > 0 {
        lemma_count_enc_le_len(s.drop_last(), e);
    }
}

pub proof fn lemma_count_norm_le_len(s: Seq<Tile>, e: int)
    ensures
        0 <= count_norm(s, e) <= s.len(),
    decreases s.len(),
{
    if s.len() > 0 {
        lemma_count_norm_le_len(s.drop_last(), e);
    }
}

/// Sum of the first `n` slots of a histogram.
pub open spec fn sum_counts(h: Seq<u8>, n: int) -> int
    decreases n,
{
    if n <= 0 {
        0
    } else {
        sum_counts(h, n - 1) + h[n - 1]
    }
}

/// Updating one slot shifts the sum by the difference.
pub proof fn lemma_sum_counts_update(h: Seq<u8>, e: int, v: u8, n: int)
    requires
        0 <= e < n <= h.len(),
    ensures
        sum_counts(h.update(e, v), n) == sum_counts(h, n) - h[e] + v,
    decreases n,
{
    if e == n - 1 {
        assert(forall|k: int| 0 <= k < n - 1 ==> h.update(e, v)[k] == h[k]);
        lemma_sum_counts_congruence(h.update(e, v), h, n - 1);
    } else {
        lemma_sum_counts_update(h, e, v, n - 1);
    }
}

/// Histograms equal on a prefix have equal prefix sums.
pub proof fn lemma_sum_counts_congruence(a: Seq<u8>, b: Seq<u8>, n: int)
    requires
        forall|k: int| 0 <= k < n ==> a[k] == b[k],
    ensures
        sum_counts(a, n) == sum_counts(b, n),
    decreases n,
{
    if n > 0 {
        lemma_sum_counts_congruence(a, b, n - 1);
    }
}

/// The sum is never negative.
pub proof fn lemma_sum_counts_nonneg(h: Seq<u8>, n: int)
    ensures
        sum_counts(h, n) >= 0,
    decreases n,
{
    if n > 0 {
        lemma_sum_counts_nonneg(h, n - 1);
    }
}

/// Folded counts add over concatenation.
pub proof fn lemma_count_norm_concat(a: Seq<Tile>, b: Seq<Tile>, e: int)
    ensures
        count_norm(a + b, e) == count_norm(a, e) + count_norm(b, e),
    decreases b.len(),
{
    if b.len() == 0 {
        assert(a + b =~= a);
    } else {
        assert((a + b).drop_last() =~= a + b.drop_last());
        lemma_count_norm_concat(a, b.drop_last(), e);
    }
}

/// For a normal kind, the folded count splits into the plain count and the
/// red count.
pub proof fn lemma_count_norm_split(s: Seq<Tile>, n: int)
    requires
        0 <= n < 34,
        forall|i: int| 0 <= i < s.len() ==> (#[trigger] s[i]).wf(),
    ensures
        count_norm(s, n) == count_enc(s, n) + (if crate::tile::spec_to_red(n) != n {
            count_enc(s, crate::tile::spec_to_red(n))
        } else {
            0int
        }),
    decreases s.len(),
{
    if s.len() > 0 {
        lemma_count_norm_split(s.drop_last(), n);
    }
}

/// A histogram whose slots count the tiles of a listing sums to the
/// listing's length.
pub proof fn lemma_total_is_len(h: Seq<u8>, s: Seq<Tile>)
    requires
        h.len() == 37,
        forall|e: int| 0 <= e < 37 ==> #[trigger] h[e] == count_enc(s, e),
        forall|i: int| 0 <= i < s.len() ==> (#[trigger] s[i]).wf(),
    ensures
        sum_counts(h, 37) == s.len(),
    decreases s.len(),
{
    if s.len() == 0 {
        lemma_sum_all_zero(h, 37);
    } else {
        let s0 = s.drop_last();
        let t = s.last();
        let h0 = Seq::new(37, |e: int| (count_enc(s0, e)) as u8);
        assert forall|e: int| 0 <= e < 37 implies #[trigger] h0[e] == count_enc(s0, e) by {
            lemma_count_enc_le_len(s0, e);
            assert(count_enc(s, e) == count_enc(s0, e) + (if t@ == e {
                1int
            } else {
                0int
            }));
            assert(count_enc(s0, e) <= h[e]);
        }
        lemma_total_is_len(h0, s0);
        assert(count_enc(s, t@) == count_enc(s0, t@) + 1);
        assert(h[t@] == h0[t@] + 1);
        let h1 = h0.update(t@, (h0[t@] + 1) as u8);
        assert forall|e: int| 0 <= e < 37 implies #[trigger] h[e] == h1[e] by {
            assert(count_enc(s, e) == count_enc(s0, e) + (if t@ == e {
                1int
            } else {
                0int
            }));
        }
        lemma_sum_counts_congruence(h, h1, 37);
        lemma_sum_counts_update(h0, t@, (h0[t@] + 1) as u8, 37);
    }
}

/// A histogram of zeros sums to zero.
pub proof fn lemma_sum_all_zero(h: Seq<u8>, n: int)
    requires
        forall|e: int| 0 <= e < n ==> #[trigger] h[e] == 0,
    ensures
        sum_counts(h, n) == 0,
    decreases n,
{
    if n > 0 {
        lemma_sum_all_zero(h, n - 1);
    }
}

/// Histogram over all 37 tile encodings (red fives counted separately).
#[derive(Clone, Copy, Debug, PartialEq, Eq)]
pub struct TileSet37 {
    counts: [u8; 37],
}

impl View for TileSet37 {
    type V = Seq<u8>;

    closed spec fn view(&self) -> Seq<u8> {
        self.counts@
    }
}

impl TileSet37 {
    /// Validity: at most four of each kind, reds included in their five's budget.
    pub open spec fn wf(self) -> bool {
        &&& self@.len() == 37
        &&& forall|e: int| 0 <= e < 37 ==> self@[e] <= 4
        &&& self@[4] + self@[34] <= 4
        &&& self@[13] + self@[35] <= 4
        &&& self@[22] + self@[36] <= 4
    }

    /// Wraps a raw count array.
    pub fn new(counts: [u8; 37]) -> (r: TileSet37)
        ensures
            r@ == counts@,
    {
        TileSet37 { counts }
    }

    /// The empty histogram.
    pub fn empty() -> (r: TileSet37)
        ensures
            r@.len() == 37,
            forall|e: int| 0 <= e < 37 ==> r@[e] == 0,
            r.wf(),
    {
        TileSet37 { counts: [0u8; 37] }
    }

    /// Count of the given tile (by its 37-way encoding).
    pub fn get(&self, t: Tile) -> (r: u8)
        requires
            t.wf(),
        ensures
            r == self@[t@],
    {
        self.counts[t.encoding() as usize]
    }

    /// Sets the count of the given tile (by its 37-way encoding).
    pub fn set(&mut self, t: Tile, v: u8)
        requires
            t.wf(),
        ensures
            final(self)@ == old(self)@.update(t@, v),
    {
        self.counts[t.encoding() as usize] = v;
    }

    /// Accumulates a histogram from a sequence of tiles (by 37-way encoding).
    pub fn from_tiles(tiles: &[Tile]) -> (r: TileSet37)
        requires
            tiles@.len() <= 200,
            forall|i: int| 0 <= i < tiles@.len() ==> (#[trigger] tiles@[i]).wf(),
        ensures
            r@.len() == 37,
            forall|e: int| 0 <= e < 37 ==> #[trigger] r@[e] == count_enc(tiles@, e),
    {
        let ghost all = tiles@;
        let mut counts = [0u8; 37];
        let mut i: usize = 0;
        while i < tiles.len()
            invariant
                tiles@ == all,
                i <= all.len() <= 200,
                forall|k: int| 0 <= k < all.len() ==> (#[trigger] all[k]).wf(),
                counts@.len() == 37,
                forall|e: int| 0 <= e < 37 ==> #[trigger] counts@[e] == count_enc(
                    all.take(i as int),
                    e,
                ),
            decreases tiles.len() - i,
        {
            let t = tiles[i];
            let e = t.encoding() as usize;
            proof {
                assert(all.take(i as int).push(all[i as int]) =~= all.take(i + 1));
                assert forall|e2: int| 0 <= e2 < 37 implies count_enc(all.take(i + 1), e2)
                    == count_enc(all.take(i as int), e2) + (if all[i as int]@ == e2 {
                    1int
                } else {
                    0int
                }) by {
                    lemma_count_enc_push(all.take(i as int), all[i as int], e2);
                }
                lemma_count_enc_le_len(all.take(i as int), t@);
            }
            counts[e] = counts[e] + 1;
            i += 1;
        }
        proof {
            assert(all.take(all.len() as int) =~= all);
        }
        TileSet37 { counts }
    }

    /// Total number of tiles in the histogram.
    pub fn total(&self) -> (r: u16)
        requires
            self@.len() == 37,
        ensures
            r as int == sum_counts(self@, 37),
    {
        let mut sum: u16 = 0;
        let mut e: usize = 0;
        while e < 37
            invariant
                e <= 37,
                self@.len() == 37,
                sum as int == sum_counts(self@, e as int),
                sum <= 255 * e,
            decreases 37 - e,
        {
            sum += self.counts[e] as u16;
            e += 1;
        }
        sum
    }

    /// Lists the tiles of the histogram in encoding order.
    pub fn to_sorted_vec(&self) -> (r: Vec<Tile>)
        ensures
            forall|e: int| 0 <= e < 37 ==> #[trigger] count_enc(r@, e) == self@[e],
            forall|i: int| 0 <= i < r@.len() ==> (#[trigger] r@[i]).wf(),
            forall|i: int, j: int| 0 <= i < j < r@.len() ==> r@[i]@ <= r@[j]@,
    {
        let mut out: Vec<Tile> = Vec::new();
        let mut e: usize = 0;
        while e < 37
            invariant
                e <= 37,
                forall|e2: int| 0 <= e2 < e ==> #[trigger] count_enc(out@, e2) == self@[e2],
                forall|e2: int| e <= e2 < 37 ==> #[trigger] count_enc(out@, e2) == 0,
                forall|i: int| 0 <= i < out@.len() ==> (#[trigger] out@[i]).wf(),
                forall|i: int| 0 <= i < out@.len() ==> out@[i]@ < e,
                forall|i: int, j: int| 0 <= i < j < out@.len() ==> out@[i]@ <= out@[j]@,
            decreases 37 - e,
        {
            let c = self.counts[e];
            let t = Tile::from_encoding(e as u8).unwrap();
            let mut k: u8 = 0;
            while k < c
                invariant
                    t@ == e as int,
                    t.wf(),
                    e < 37,
                    k <= c,
                    c == self@[e as int],
                    forall|e2: int| 0 <= e2 < e ==> #[trigger] count_enc(out@, e2) == self@[e2],
                    count_enc(out@, e as int) == k,
                    forall|e2: int| e < e2 < 37 ==> #[trigger] count_enc(out@, e2) == 0,
                    forall|i: int| 0 <= i < out@.len() ==> (#[trigger] out@[i]).wf(),
                    forall|i: int| 0 <= i < out@.len() ==> out@[i]@ <= e as int,
                    forall|i: int, j: int| 0 <= i < j < out@.len() ==> out@[i]@ <= out@[j]@,
                decreases c - k,
            {
                proof {
                    assert forall|e2: int| 0 <= e2 < 37 implies count_enc(out@.push(t), e2)
                        == count_enc(out@, e2) + (if t@ == e2 {
                        1int
                    } else {
                        0int
                    }) by {
                        lemma_count_enc_push(out@, t, e2);
                    }
                }
                out.push(t);
                k += 1;
            }
            e += 1;
        }
        out
    }
}

/// Histogram over the 34 normal tile kinds (red fives folded to normal fives).
#[derive(Clone, Copy, Debug, PartialEq, Eq)]
pub struct TileSet34 {
    counts: [u8; 34],
}

impl View for TileSet34 {
    type V = Seq<u8>;

    closed spec fn view(&self) -> Seq<u8> {
        self.counts@
    }
}

impl TileSet34 {
    /// Validity: at most four of each kind.
    pub open spec fn wf(self) -> bool {
        &&& self@.len() == 34
        &&& forall|e: int| 0 <= e < 34 ==> self@[e] <= 4
    }

    /// Wraps a raw count array.
    pub fn new(counts: [u8; 34]) -> (r: TileSet34)
        ensures
            r@ == counts@,
    {
        TileSet34 { counts }
    }

    /// The empty histogram.
    pub fn empty() -> (r: TileSet34)
        ensures
            r@.len() == 34,
            forall|e: int| 0 <= e < 34 ==> r@[e] == 0,
            r.wf(),
    {
        TileSet34 { counts: [0u8; 34] }
    }

    /// Count of the given tile (red fives fold into normal fives).
    pub fn get(&self, t: Tile) -> (r: u8)
        requires
            t.wf(),
        ensures
            r == self@[spec_normal(t@)],
    {
        self.counts[t.normal_encoding() as usize]
    }

    /// Sets the count of the given tile (red fives fold into normal fives).
    pub fn set(&mut self, t: Tile, v: u8)
        requires
            t.wf(),
        ensures
            final(self)@ == old(self)@.update(spec_normal(t@), v),
    {
        self.counts[t.normal_encoding() as usize] = v;
    }

    /// Folds a 37-way histogram: each red five count joins its normal five.
    pub fn from_full(h: &TileSet37) -> (r: TileSet34)
        requires
            h.wf(),
        ensures
            r@.len() == 34,
            r@[4] == h@[4] + h@[34],
            r@[13] == h@[13] + h@[35],
            r@[22] == h@[22] + h@[36],
            forall|e: int|
                0 <= e < 34 && e != 4 && e != 13 && e != 22 ==> #[trigger] r@[e] == h@[e],
            r.wf(),
    {
        let mut counts = [0u8; 34];
        let mut e: usize = 0;
        while e < 34
            invariant
                e <= 34,
                h.wf(),
                counts@.len() == 34,
                forall|k: int| 0 <= k < e ==> #[trigger] counts@[k] == h@[k],
                forall|k: int| e <= k < 34 ==> #[trigger] counts@[k] == 0,
            decreases 34 - e,
        {
            counts[e] = h.counts[e];
            e += 1;
        }
        counts[4] = counts[4] + h.counts[34];
        counts[13] = counts[13] + h.counts[35];
        counts[22] = counts[22] + h.counts[36];
        TileSet34 { counts }
    }

    /// Accumulates a histogram from a sequence of tiles (red fives fold).
    pub fn from_tiles(tiles: &[Tile]) -> (r: TileSet34)
        requires
            tiles@.len() <= 200,
            forall|i: int| 0 <= i < tiles@.len() ==> (#[trigger] tiles@[i]).wf(),
        ensures
            r@.len() == 34,
            forall|e: int| 0 <= e < 34 ==> #[trigger] r@[e] == count_norm(tiles@, e),
    {
        let ghost all = tiles@;
        let mut counts = [0u8; 34];
        let mut i: usize = 0;
        while i < tiles.len()
            invariant
                tiles@ == all,
                i <= all.len() <= 200,
                forall|k: int| 0 <= k < all.len() ==> (#[trigger] all[k]).wf(),
                counts@.len() == 34,
                forall|e: int| 0 <= e < 34 ==> #[trigger] counts@[e] == count_norm(
                    all.take(i as int),
                    e,
                ),
            decreases tiles.len() - i,
        {
            let t = tiles[i];
            let e = t.normal_encoding() as usize;
            proof {
                assert(all.take(i as int).push(all[i as int]) =~= all.take(i + 1));
                assert forall|e2: int| 0 <= e2 < 34 implies count_norm(all.take(i + 1), e2)
                    == count_norm(all.take(i as int), e2) + (if spec_normal(all[i as int]@) == e2 {
                    1int
                } else {
                    0int
                }) by {
                    lemma_count_norm_push(all.take(i as int), all[i as int], e2);
                }
                lemma_count_norm_le_len(all.take(i as int), spec_normal(t@));
            }
            counts[e] = counts[e] + 1;
            i += 1;
        }
        proof {
            assert(all.take(all.len() as int) =~= all);
        }
        TileSet34 { counts }
    }

    /// Lists the tiles of the histogram in encoding order (all tiles normal).
    pub fn to_sorted_vec(&self) -> (r: Vec<Tile>)
        ensures
            forall|e: int| 0 <= e < 34 ==> #[trigger] count_norm(r@, e) == self@[e],
            forall|i: int| 0 <= i < r@.len() ==> (#[trigger] r@[i]).wf() && r@[i]@ < 34,
            forall|i: int, j: int| 0 <= i < j < r@.len() ==> r@[i]@ <= r@[j]@,
    {
        let mut out: Vec<Tile> = Vec::new();
        let mut e: usize = 0;
        while e < 34
            invariant
                e <= 34,
                forall|e2: int| 0 <= e2 < e ==> #[trigger] count_norm(out@, e2) == self@[e2],
                forall|e2: int| e <= e2 < 34 ==> #[trigger] count_norm(out@, e2) == 0,
                forall|i: int| 0 <= i < out@.len() ==> (#[trigger] out@[i]).wf() && out@[i]@ < e,
                forall|i: int, j: int| 0 <= i < j < out@.len() ==> out@[i]@ <= out@[j]@,
            decreases 34 - e,
        {
            let c = self.counts[e];
            let t = Tile::from_encoding(e as u8).unwrap();
            let mut k: u8 = 0;
            while k < c
                invariant
                    t@ == e as int,
                    t.wf(),
                    e < 34,
                    k <= c,
                    c == self@[e as int],
                    forall|e2: int| 0 <= e2 < e ==> #[trigger] count_norm(out@, e2) == self@[e2],
                    count_norm(out@, e as int) == k,
                    forall|e2: int| e < e2 < 34 ==> #[trigger] count_norm(out@, e2) == 0,
                    forall|i: int| 0 <= i < out@.len() ==> (#[trigger] out@[i]).wf() && out@[i]@
                        <= e as int,
                    forall|i: int, j: int| 0 <= i < j < out@.len() ==> out@[i]@ <= out@[j]@,
                decreases c - k,
            {
                proof {
                    assert forall|e2: int| 0 <= e2 < 34 implies count_norm(out@.push(t), e2)
                        == count_norm(out@, e2) + (if spec_normal(t@) == e2 {
                        1int
                    } else {
                        0int
                    }) by {
                        lemma_count_norm_push(out@, t, e2);
                    }
                }
                out.push(t);
                k += 1;
            }
            e += 1;
        }
        out
    }
}

/// One suit's nine counts packed three bits per count, low digit first.
pub open spec fn pack_digits(h: Seq<u8>, lo: int, hi: int) -> int
    decreases hi - lo,
{
    if lo >= hi {
        0
    } else {
        pack_digits(h, lo + 1, hi) * 8 + h[lo]
    }
}

/// Eight to the `n`-th power.
pub open spec fn pow8(n: int) -> int
    decreases n,
{
    if n <= 0 {
        1
    } else {
        8 * pow8(n - 1)
    }
}

pub proof fn lemma_pack_digits_bound(h: Seq<u8>, lo: int, hi: int)
    requires
        forall|e: int| lo <= e < hi ==> 0 <= #[trigger] h[e] <= 7,
    ensures
        0 <= pack_digits(h, lo, hi) < pow8(hi - lo),
    decreases hi - lo,
{
    if lo < hi {
        lemma_pack_digits_bound(h, lo + 1, hi);
    }
}

impl TileSet34 {
    /// Compresses the histogram to four 27-bit integers, one per suit
    /// (honors use the fourth slot with seven digits). Each count occupies
    /// three bits; the digit for the lowest number sits in the lowest bits.
    pub fn packed(&self) -> (r: [u32; 4])
        requires
            self.wf(),
        ensures
            r@[0] == pack_digits(self@, 0, 9),
            r@[1] == pack_digits(self@, 9, 18),
            r@[2] == pack_digits(self@, 18, 27),
            r@[3] == pack_digits(self@, 27, 34),
    {
        proof {
            reveal_with_fuel(pow8, 10);
        }
        let mut packed = [0u32; 4];
        let mut s: usize = 0;
        while s < 4
            invariant
                self.wf(),
                packed@.len() == 4,
                s <= 4,
                forall|k: int| 0 <= k < s ==> #[trigger] packed@[k] == pack_digits(
                    self@,
                    9 * k,
                    if k == 3 {
                        34int
                    } else {
                        9 * k + 9
                    },
                ),
            decreases 4 - s,
        {
            let lo: usize = 9 * s;
            let hi: usize = if s == 3 {
                34
            } else {
                9 * s + 9
            };
            let mut p: u32 = 0;
            let mut i: usize = hi;
            while i > lo
                invariant
                    self.wf(),
                    lo == 9 * s,
                    s < 4,
                    hi == if s == 3 {
                        34int
                    } else {
                        9 * s + 9
                    },
                    lo <= i <= hi,
                    p == pack_digits(self@, i as int, hi as int),
                decreases i,
            {
                i -= 1;
                proof {
                    reveal_with_fuel(pow8, 10);
                    lemma_pack_digits_bound(self@, i as int, hi as int);
                    lemma_pack_digits_bound(self@, i + 1, hi as int);
                }
                p = p * 8 + (self.counts[i] as u32);
            }
            packed[s] = p;
            s += 1;
        }
        packed
    }
}

/// The histogram round trip: rebuilding a 34-way histogram from any tile
/// listing with matching per-kind counts (such as `to_sorted_vec` returns)
/// yields the original histogram, slot for slot.
pub proof fn lemma_ts34_round_trip(h: TileSet34, tiles: Seq<Tile>, rebuilt: TileSet34)
    requires
        h@.len() == 34,
        rebuilt@.len() == 34,
        forall|e: int| 0 <= e < 34 ==> #[trigger] count_norm(tiles, e) == h@[e],
        forall|e: int| 0 <= e < 34 ==> #[trigger] rebuilt@[e] == count_norm(tiles, e),
    ensures
        rebuilt@ =~= h@,
        rebuilt == h,
{
    assert forall|e: int| 0 <= e < 34 implies rebuilt@[e] == h@[e] by {
        assert(count_norm(tiles, e) == h@[e]);
    }
    lemma_ts34_view_injective(rebuilt, h);
}

/// Two 34-way histograms with equal views are equal values.
pub proof fn lemma_ts34_view_injective(a: TileSet34, b: TileSet34)
    requires
        a@ =~= b@,
    ensures
        a == b,
{
    broadcast use vstd::array::group_array_axioms;

    assert(a.counts =~= b.counts);
}

} // verus!
