//! The 136-tile wall: dealing order, draw partitions, and the dead wall.
//!
//! Layout used throughout: `wall[0..52]` is the deal (13 tiles each),
//! `wall[52..122]` the live draws, and `wall[122..136]` the dead wall.
//! Head draws advance `num_drawn_head` from 52; kan replacements take
//! `wall[135 - num_drawn_tail]` from the tail of the dead wall. The dora
//! indicator for `k` kans made is `wall[122 + 2 * k]`.

use vstd::prelude::*;

use crate::tile::Tile;
use crate::tile::spec_normal;
use crate::tile_set::{TileSet34, count_norm};

verus! {

/// Ordinary draws available in a round: the 136 tiles minus the 52 dealt
/// and the 14 of the dead wall.
pub const MAX_NUM_DRAWS: u8 = 70;

/// Is the wall a full tile set: four of every normal kind (reds folding
/// into their fives)?
pub fn is_valid_wall(wall: &[Tile; 136]) -> (r: bool)
    requires
        forall|i: int| 0 <= i < 136 ==> (#[trigger] wall@[i]).wf(),
    ensures
        r == forall|e: int| 0 <= e < 34 ==> #[trigger] count_norm(wall@, e) == 4,
{
    let h = TileSet34::from_tiles(wall.as_slice());
    let mut e: usize = 0;
    let mut ok = true;
    while e < 34
        invariant
            e <= 34,
            h@.len() == 34,
            forall|k: int| 0 <= k < 34 ==> #[trigger] h@[k] == count_norm(wall@, k),
            ok == forall|k: int| 0 <= k < e ==> #[trigger] count_norm(wall@, k) == 4,
        decreases 34 - e,
    {
        let t = Tile::from_normal_encoding(e as u8).unwrap();
        if h.get(t) != 4 {
            ok = false;
        }
        e += 1;
    }
    ok
}

/// Builds the fully sorted wall: four copies of every kind in encoding
/// order, the first `num_reds[s]` fives of suit `s` replaced by red fives
/// (`1111m2222m3333m4444m0555m...` for one red per suit).
pub fn make_sorted_wall(num_reds: [u8; 3]) -> (r: [Tile; 136])
    requires
        num_reds@[0] <= 4,
        num_reds@[1] <= 4,
        num_reds@[2] <= 4,
    ensures
        forall|i: int| 0 <= i < 136 ==> (#[trigger] r@[i]).wf(),
        forall|e: int| 0 <= e < 34 ==> #[trigger] count_norm(r@, e) == 4,
{
    let mut v: Vec<Tile> = Vec::new();
    let mut e: usize = 0;
    while e < 34
        invariant
            e <= 34,
            num_reds@[0] <= 4,
            num_reds@[1] <= 4,
            num_reds@[2] <= 4,
            v@.len() == 4 * e,
            forall|i: int| 0 <= i < v@.len() ==> (#[trigger] v@[i]).wf(),
            forall|k: int| 0 <= k < e ==> #[trigger] count_norm(v@, k) == 4,
            forall|k: int| e <= k < 34 ==> #[trigger] count_norm(v@, k) == 0,
        decreases 34 - e,
    {
        let base = Tile::from_normal_encoding(e as u8).unwrap();
        let is_five = e == 4 || e == 13 || e == 22;
        let reds: u8 = if is_five {
            num_reds[e / 9]
        } else {
            0
        };
        let mut k: u8 = 0;
        while k < 4
            invariant
                k <= 4,
                e < 34,
                base.wf(),
                base@ == e as int,
                reds <= 4,
                forall|i: int| 0 <= i < v@.len() ==> (#[trigger] v@[i]).wf(),
                forall|k2: int| 0 <= k2 < e ==> #[trigger] count_norm(v@, k2) == 4,
                count_norm(v@, e as int) == k,
                forall|k2: int| e < k2 < 34 ==> #[trigger] count_norm(v@, k2) == 0,
                v@.len() == 4 * e + k,
            decreases 4 - k,
        {
            let t = if k < reds {
                base.to_red()
            } else {
                base
            };
            proof {
                assert(spec_normal(t@) == e as int);
                assert forall|e2: int| 0 <= e2 < 34 implies #[trigger] count_norm(v@.push(t), e2)
                    == count_norm(v@, e2) + (if spec_normal(t@) == e2 {
                    1int
                } else {
                    0int
                }) by {
                    crate::tile_set::lemma_count_norm_push(v@, t, e2);
                }
            }
            v.push(t);
            k += 1;
        }
        e += 1;
    }
    let mut wall = [Tile::first(); 136];
    let mut i: usize = 0;
    while i < 136
        invariant
            v@.len() == 136,
            i <= 136,
            wall@.len() == 136,
            forall|j: int| 0 <= j < v@.len() ==> (#[trigger] v@[j]).wf(),
            forall|e2: int| 0 <= e2 < 34 ==> #[trigger] count_norm(v@, e2) == 4,
            forall|j: int| 0 <= j < i ==> #[trigger] wall@[j] == v@[j],
            forall|j: int| i <= j < 136 ==> (#[trigger] wall@[j]).wf(),
        decreases 136 - i,
    {
        wall[i] = v[i];
        i += 1;
    }
    proof {
        assert(wall@ =~= v@);
    }
    wall
}

} // verus!
