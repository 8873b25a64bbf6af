//! Hand decomposition: parsing a waiting hand into complete groups, a pair,
//! and one incomplete element -- the wait.
//!
//! The decomposer enumerates, for a 34-way histogram of a player's closed
//! tiles (13-tile shaped: 1, 4, 7, 10 or 13 tiles), every way to read it as
//! `k` complete groups plus a pair plus one incomplete element. Structurally
//! distinct readings of the same tiles are all reported; nothing is
//! deduplicated, because scoring may value them differently.

use vstd::prelude::*;

use crate::tile::{Tile, spec_is_red, spec_num, spec_suit};
use crate::tile_set::TileSet34;
use crate::hand_group::HandGroup;

verus! {

/// The five shapes an incomplete element can take.
#[derive(Clone, Copy, Debug, PartialEq, Eq, Structural, Hash)]
pub enum WaitingKind {
    /// A lone tile waiting to become the pair.
    Tanki,
    /// A second pair waiting to become a triplet.
    Shanpon,
    /// A run missing its middle tile (e.g. 4-6 waiting on 5).
    Kanchan,
    /// An edge run: 1-2 waiting on 3, or 8-9 waiting on 7.
    Penchan,
    /// An open-ended run (e.g. 4-5); reported once per waiting side.
    Ryanmen,
}

/// One reading of a waiting hand: complete closed groups, the pair (absent
/// for a tanki wait), and the incomplete element with its completing tile.
#[derive(Debug, PartialEq, Eq)]
pub struct RegularWait {
    /// The complete closed groups.
    pub groups: Vec<HandGroup>,
    /// The complete pair; `None` exactly for a tanki wait.
    pub pair: Option<Tile>,
    /// The shape of the incomplete element.
    pub waiting_kind: WaitingKind,
    /// The lowest tile of the incomplete element (the lone tile itself for
    /// tanki, the pair tile for shanpon).
    pub pattern: Tile,
    /// The tile that completes the hand.
    pub waiting_tile: Tile,
}

/// How many tiles of normal kind `e` the group `g` uses.
pub open spec fn group_hist(g: HandGroup, e: int) -> int {
    match g {
        HandGroup::Koutsu(t) => if t@ == e {
            3
        } else {
            0
        },
        HandGroup::Shuntsu(t) => if t@ == e || t@ + 1 == e || t@ + 2 == e {
            1
        } else {
            0
        },
    }
}

/// How many tiles of normal kind `e` the groups use together.
pub open spec fn groups_hist(gs: Seq<HandGroup>, e: int) -> int
    decreases gs.len(),
{
    if gs.len() == 0 {
        0
    } else {
        groups_hist(gs.drop_last(), e) + group_hist(gs.last(), e)
    }
}

pub proof fn lemma_groups_hist_push(gs: Seq<HandGroup>, g: HandGroup, e: int)
    ensures
        groups_hist(gs.push(g), e) == groups_hist(gs, e) + group_hist(g, e),
{
    assert(gs.push(g).drop_last() =~= gs);
}

/// How many tiles of kind `e` the pair uses.
pub open spec fn pair_hist(pair: Option<Tile>, e: int) -> int {
    match pair {
        Some(t) => if t@ == e {
            2
        } else {
            0
        },
        None => 0,
    }
}

/// How many tiles of kind `e` the incomplete element of shape `kind` with
/// lowest tile `p` uses.
pub open spec fn wait_hist(kind: WaitingKind, p: int, e: int) -> int {
    match kind {
        WaitingKind::Tanki => if p == e {
            1
        } else {
            0
        },
        WaitingKind::Shanpon => if p == e {
            2
        } else {
            0
        },
        WaitingKind::Kanchan => (if p == e {
            1int
        } else {
            0int
        }) + (if p + 2 == e {
            1int
        } else {
            0int
        }),
        WaitingKind::Penchan | WaitingKind::Ryanmen => (if p == e {
            1int
        } else {
            0int
        }) + (if p + 1 == e {
            1int
        } else {
            0int
        }),
    }
}

impl RegularWait {
    /// How many tiles of kind `e` this reading uses in the closed hand.
    pub open spec fn tile_count(self, e: int) -> int {
        groups_hist(self.groups@, e) + pair_hist(self.pair, e) + wait_hist(
            self.waiting_kind,
            self.pattern@,
            e,
        )
    }

    /// Validity: well-formed parts, and the incomplete element's shape,
    /// pattern and completing tile agree.
    pub open spec fn wf(self) -> bool {
        &&& forall|i: int| 0 <= i < self.groups@.len() ==> (#[trigger] self.groups@[i]).wf()
        &&& self.groups@.len() <= 4
        &&& self.pattern.wf() && !spec_is_red(self.pattern@)
        &&& self.waiting_tile.wf() && !spec_is_red(self.waiting_tile@)
        &&& self.pair matches Some(t) ==> t.wf() && !spec_is_red(t@)
        &&& (self.pair is None) <==> self.waiting_kind == WaitingKind::Tanki
        &&& match self.waiting_kind {
            WaitingKind::Tanki => self.waiting_tile == self.pattern,
            WaitingKind::Shanpon => self.waiting_tile == self.pattern,
            WaitingKind::Kanchan => spec_suit(self.pattern@) < 3 && spec_num(self.pattern@) <= 7
                && self.waiting_tile@ == self.pattern@ + 1,
            WaitingKind::Penchan => spec_suit(self.pattern@) < 3 && ((spec_num(self.pattern@) == 1
                && self.waiting_tile@ == self.pattern@ + 2) || (spec_num(self.pattern@) == 8
                && self.waiting_tile@ == self.pattern@ - 1)),
            WaitingKind::Ryanmen => spec_suit(self.pattern@) < 3 && 2 <= spec_num(self.pattern@)
                <= 7 && (self.waiting_tile@ == self.pattern@ - 1 || self.waiting_tile@
                == self.pattern@ + 2),
        }
    }

    /// The group the completing tile finishes, if the wait sits in a group
    /// (`None` for tanki: the tile finishes the pair).
    pub fn wait_group(&self) -> (r: Option<HandGroup>)
        requires
            self.wf(),
        ensures
            self.waiting_kind == WaitingKind::Tanki ==> r is None,
            self.waiting_kind == WaitingKind::Shanpon ==> r == Some(HandGroup::Koutsu(self.pattern)),
            (self.waiting_kind == WaitingKind::Kanchan || self.waiting_kind == WaitingKind::Penchan
                || self.waiting_kind == WaitingKind::Ryanmen) ==> (r matches Some(g) && g matches
                HandGroup::Shuntsu(t) && t@ == if self.waiting_tile@ < self.pattern@ {
                self.waiting_tile@
            } else {
                self.pattern@
            }),
    {
        match self.waiting_kind {
            WaitingKind::Tanki => None,
            WaitingKind::Shanpon => Some(HandGroup::Koutsu(self.pattern)),
            WaitingKind::Kanchan => Some(HandGroup::Shuntsu(self.pattern)),
            WaitingKind::Penchan | WaitingKind::Ryanmen => {
                if self.waiting_tile.encoding() < self.pattern.encoding() {
                    Some(HandGroup::Shuntsu(self.waiting_tile))
                } else {
                    Some(HandGroup::Shuntsu(self.pattern))
                }
            },
        }
    }
}

/// The incomplete element chosen during the search.
#[derive(Clone, Copy, Debug, PartialEq, Eq, Structural)]
struct WaitShape {
    kind: WaitingKind,
    pattern: Tile,
    waiting: Tile,
}

/// How many tiles of kind `e` the chosen incomplete element uses.
spec fn shape_hist(wait: Option<WaitShape>, e: int) -> int {
    match wait {
        Some(w) => wait_hist(w.kind, w.pattern@, e),
        None => 0,
    }
}

/// Validity of a chosen incomplete element (mirrors `RegularWait::wf`).
spec fn shape_wf(wait: Option<WaitShape>) -> bool {
    match wait {
        None => true,
        Some(w) => {
            &&& w.pattern.wf() && !spec_is_red(w.pattern@)
            &&& w.waiting.wf() && !spec_is_red(w.waiting@)
            &&& match w.kind {
                WaitingKind::Tanki => w.waiting == w.pattern,
                WaitingKind::Shanpon => w.waiting == w.pattern,
                WaitingKind::Kanchan => spec_suit(w.pattern@) < 3 && spec_num(w.pattern@) <= 7
                    && w.waiting@ == w.pattern@ + 1,
                WaitingKind::Penchan => spec_suit(w.pattern@) < 3 && ((spec_num(w.pattern@) == 1
                    && w.waiting@ == w.pattern@ + 2) || (spec_num(w.pattern@) == 8 && w.waiting@
                    == w.pattern@ - 1)),
                WaitingKind::Ryanmen => spec_suit(w.pattern@) < 3 && 2 <= spec_num(w.pattern@) <= 7
                    && (w.waiting@ == w.pattern@ - 1 || w.waiting@ == w.pattern@ + 2),
            }
        },
    }
}

/// Does some reading in `s` wait on kind `tau`?
#[verifier::opaque]
spec fn wait_found(s: Seq<RegularWait>, tau: int) -> bool {
    exists|i: int| 0 <= i < s.len() && (#[trigger] s[i]).waiting_tile@ == tau
}

/// `b` extends `a`: all of `a`'s entries stand unchanged at the front.
#[verifier::opaque]
spec fn seq_extends(b: Seq<RegularWait>, a: Seq<RegularWait>) -> bool {
    a.len() <= b.len() && forall|i: int| 0 <= i < a.len() ==> b[i] == a[i]
}

proof fn lemma_extends_trans(c: Seq<RegularWait>, b: Seq<RegularWait>, a: Seq<RegularWait>)
    requires
        seq_extends(c, b),
        seq_extends(b, a),
    ensures
        seq_extends(c, a),
{
    reveal(seq_extends);
}

proof fn lemma_wait_found_extends(b: Seq<RegularWait>, a: Seq<RegularWait>, tau: int)
    requires
        wait_found(a, tau),
        seq_extends(b, a),
    ensures
        wait_found(b, tau),
{
    reveal(wait_found);
    reveal(seq_extends);
    let i = choose|i: int| 0 <= i < a.len() && (#[trigger] a[i]).waiting_tile@ == tau;
    assert(b[i].waiting_tile@ == tau);
}

/// A call changed `out` only by appending; so did any stretch of code
/// whose calls all did.
proof fn lemma_extends_step(b: Seq<RegularWait>, a: Seq<RegularWait>)
    requires
        a.len() <= b.len(),
        forall|i: int| 0 <= i < a.len() ==> b[i] == a[i],
    ensures
        seq_extends(b, a),
{
    reveal(seq_extends);
}

proof fn lemma_extends_empty(a: Seq<RegularWait>)
    ensures
        seq_extends(a, Seq::empty()),
{
    reveal(seq_extends);
}

/// The slot where a group certainly uses tiles.
spec fn group_anchor(g: HandGroup) -> int {
    match g {
        HandGroup::Koutsu(t) => t@,
        HandGroup::Shuntsu(t) => t@,
    }
}

proof fn lemma_group_anchor(g: HandGroup)
    requires
        g.wf(),
    ensures
        0 <= group_anchor(g) < 34,
        group_hist(g, group_anchor(g)) > 0,
{
}

proof fn lemma_groups_hist_nonneg(gs: Seq<HandGroup>, x: int)
    ensures
        groups_hist(gs, x) >= 0,
    decreases gs.len(),
{
    if gs.len() > 0 {
        lemma_groups_hist_nonneg(gs.drop_last(), x);
    }
}

/// One group's use of a slot never exceeds the listing's total use.
proof fn lemma_group_hist_le(gs: Seq<HandGroup>, i: int, x: int)
    requires
        0 <= i < gs.len(),
    ensures
        group_hist(gs[i], x) <= groups_hist(gs, x),
    decreases gs.len(),
{
    if i == gs.len() - 1 {
        lemma_groups_hist_nonneg(gs.drop_last(), x);
    } else {
        lemma_group_hist_le(gs.drop_last(), i, x);
    }
}

/// A listing using a slot has a member using it.
proof fn lemma_groups_hist_pick(gs: Seq<HandGroup>, x: int)
    requires
        groups_hist(gs, x) > 0,
    ensures
        exists|i: int| 0 <= i < gs.len() && group_hist(#[trigger] gs[i], x) > 0,
    decreases gs.len(),
{
    if group_hist(gs.last(), x) > 0 {
        assert(group_hist(gs[gs.len() - 1], x) > 0);
    } else {
        lemma_groups_hist_pick(gs.drop_last(), x);
        let i = choose|i: int|
            0 <= i < gs.drop_last().len() && group_hist(#[trigger] gs.drop_last()[i], x) > 0;
        assert(group_hist(gs[i], x) > 0);
    }
}

proof fn lemma_seq_remove_index(s: Seq<HandGroup>, i: int, j: int)
    requires
        0 <= i < s.len(),
        0 <= j < s.len() - 1,
    ensures
        s.remove(i)[j] == if j < i {
            s[j]
        } else {
            s[j + 1]
        },
{
}

/// Removing a member takes exactly its use away from every slot.
proof fn lemma_groups_hist_remove(gs: Seq<HandGroup>, i: int, x: int)
    requires
        0 <= i < gs.len(),
    ensures
        groups_hist(gs.remove(i), x) == groups_hist(gs, x) - group_hist(gs[i], x),
    decreases gs.len(),
{
    if i == gs.len() - 1 {
        assert(gs.remove(i) =~= gs.drop_last());
    } else {
        assert(gs.remove(i).drop_last() =~= gs.drop_last().remove(i));
        assert(gs.remove(i).last() == gs.last()) by {
            lemma_seq_remove_index(gs, i, gs.len() - 2);
        }
        lemma_groups_hist_remove(gs.drop_last(), i, x);
    }
}

/// What must still be chosen to finish one reading from a mid-search
/// state: further complete groups, the pair if none is fixed yet, and the
/// incomplete element if none is fixed yet -- together consuming the
/// remaining histogram exactly, with the pair present exactly when the
/// final wait is not a tanki.
#[verifier::opaque]
spec fn completion_ok(
    rem: Seq<u8>,
    glen: int,
    pair: Option<Tile>,
    wait: Option<WaitShape>,
    mg: Seq<HandGroup>,
    mp: Option<Tile>,
    mw: Option<WaitShape>,
) -> bool {
    &&& forall|i: int| 0 <= i < mg.len() ==> (#[trigger] mg[i]).wf()
    &&& glen + mg.len() <= 4
    &&& (mp matches Some(t) ==> t.wf() && !spec_is_red(t@))
    &&& !(pair is Some && mp is Some)
    &&& shape_wf(mw)
    &&& !(wait is Some && mw is Some)
    &&& (wait is Some || mw is Some)
    &&& (completion_is_tanki(wait, mw) <==> (pair is None && mp is None))
    &&& forall|x: int|
        0 <= x < 34 ==> groups_hist(mg, x) + pair_hist(mp, x) + shape_hist(mw, x) == rem[x]
}

/// Is the (already fixed or still to come) incomplete element a tanki?
spec fn completion_is_tanki(wait: Option<WaitShape>, mw: Option<WaitShape>) -> bool {
    match wait {
        Some(w) => w.kind == WaitingKind::Tanki,
        None => match mw {
            Some(w) => w.kind == WaitingKind::Tanki,
            None => false,
        },
    }
}

/// The waiting kind of the (fixed or still to come) incomplete element.
spec fn completion_tau(wait: Option<WaitShape>, mw: Option<WaitShape>) -> int {
    match wait {
        Some(w) => w.waiting@,
        None => match mw {
            Some(w) => w.waiting@,
            None => 0,
        },
    }
}

/// Taking a triplet of kind `e` out of a completion leaves a completion of
/// the remainder.
proof fn lemma_completion_after_koutsu(
    rem: Seq<u8>,
    glen: int,
    pair: Option<Tile>,
    wait: Option<WaitShape>,
    mg: Seq<HandGroup>,
    mp: Option<Tile>,
    mw: Option<WaitShape>,
    i: int,
    e: int,
)
    requires
        completion_ok(rem, glen, pair, wait, mg, mp, mw),
        rem.len() == 34,
        0 <= e < 34,
        0 <= i < mg.len(),
        mg[i] matches HandGroup::Koutsu(t) && t@ == e,
    ensures
        rem[e] >= 3,
        completion_ok(
            rem.update(e, (rem[e] - 3) as u8),
            glen + 1,
            pair,
            wait,
            mg.remove(i),
            mp,
            mw,
        ),
{
    reveal(completion_ok);
    lemma_group_hist_le(mg, i, e);
    assert(rem[e] >= 3);
    assert forall|j: int| 0 <= j < mg.remove(i).len() implies (#[trigger] mg.remove(i)[j]).wf() by {
        lemma_seq_remove_index(mg, i, j);
    }
    assert forall|x: int|
        0 <= x < 34 implies groups_hist(mg.remove(i), x) + pair_hist(mp, x) + shape_hist(mw, x)
            == rem.update(e, (rem[e] - 3) as u8)[x] by {
        lemma_groups_hist_remove(mg, i, x);
    }
}

/// Taking a run anchored at `e` out of a completion leaves a completion of
/// the remainder.
proof fn lemma_completion_after_shuntsu(
    rem: Seq<u8>,
    glen: int,
    pair: Option<Tile>,
    wait: Option<WaitShape>,
    mg: Seq<HandGroup>,
    mp: Option<Tile>,
    mw: Option<WaitShape>,
    i: int,
    e: int,
)
    requires
        completion_ok(rem, glen, pair, wait, mg, mp, mw),
        rem.len() == 34,
        0 <= e,
        e + 2 < 34,
        0 <= i < mg.len(),
        mg[i] matches HandGroup::Shuntsu(t) && t@ == e,
    ensures
        rem[e] >= 1 && rem[e + 1] >= 1 && rem[e + 2] >= 1,
        completion_ok(
            rem.update(e, (rem[e] - 1) as u8).update(e + 1, (rem[e + 1] - 1) as u8).update(
                e + 2,
                (rem[e + 2] - 1) as u8,
            ),
            glen + 1,
            pair,
            wait,
            mg.remove(i),
            mp,
            mw,
        ),
{
    reveal(completion_ok);
    lemma_group_hist_le(mg, i, e);
    lemma_group_hist_le(mg, i, e + 1);
    lemma_group_hist_le(mg, i, e + 2);
    assert forall|j: int| 0 <= j < mg.remove(i).len() implies (#[trigger] mg.remove(i)[j]).wf() by {
        lemma_seq_remove_index(mg, i, j);
    }
    let rem2 = rem.update(e, (rem[e] - 1) as u8).update(e + 1, (rem[e + 1] - 1) as u8).update(
        e + 2,
        (rem[e + 2] - 1) as u8,
    );
    assert forall|x: int|
        0 <= x < 34 implies groups_hist(mg.remove(i), x) + pair_hist(mp, x) + shape_hist(mw, x)
            == rem2[x] by {
        lemma_groups_hist_remove(mg, i, x);
    }
}

/// Fixing the completion's pair at kind `e` leaves a completion of the
/// remainder (the tile chosen to stand for the pair does not matter).
proof fn lemma_completion_after_pair(
    rem: Seq<u8>,
    glen: int,
    wait: Option<WaitShape>,
    mg: Seq<HandGroup>,
    mp: Option<Tile>,
    mw: Option<WaitShape>,
    e: int,
    newp: Tile,
)
    requires
        completion_ok(rem, glen, None, wait, mg, mp, mw),
        rem.len() == 34,
        0 <= e < 34,
        mp matches Some(t) && t@ == e,
    ensures
        rem[e] >= 2,
        completion_ok(rem.update(e, (rem[e] - 2) as u8), glen, Some(newp), wait, mg, None, mw),
{
    reveal(completion_ok);
    lemma_groups_hist_nonneg(mg, e);
    assert forall|x: int|
        0 <= x < 34 implies groups_hist(mg, x) + pair_hist(None::<Tile>, x) + shape_hist(mw, x)
            == rem.update(e, (rem[e] - 2) as u8)[x] by {
    }
}

/// Fixing the completion's incomplete element leaves a completion of the
/// remainder, for any fixed shape that uses the same slots and is a tanki
/// exactly when the element was.
proof fn lemma_completion_after_shape(
    rem: Seq<u8>,
    rem2: Seq<u8>,
    glen: int,
    pair: Option<Tile>,
    mg: Seq<HandGroup>,
    mp: Option<Tile>,
    w: WaitShape,
    nw: WaitShape,
)
    requires
        completion_ok(rem, glen, pair, None, mg, mp, Some(w)),
        rem.len() == 34,
        rem2.len() == 34,
        forall|x: int| 0 <= x < 34 ==> rem2[x] == rem[x] - shape_hist(Some(w), x),
        shape_wf(Some(nw)),
        forall|x: int|
            0 <= x < 34 ==> shape_hist(Some(nw), x) == shape_hist(Some(w), x),
        (nw.kind == WaitingKind::Tanki) == (w.kind == WaitingKind::Tanki),
    ensures
        completion_ok(rem2, glen, pair, Some(nw), mg, mp, None),
{
    reveal(completion_ok);
}

/// A fresh copy of a group listing.
fn copy_groups(v: &Vec<HandGroup>) -> (r: Vec<HandGroup>)
    ensures
        r@ == v@,
{
    let mut r: Vec<HandGroup> = Vec::new();
    let mut i: usize = 0;
    while i < v.len()
        invariant
            i <= v@.len(),
            r@ == v@.take(i as int),
        decreases v@.len() - i,
    {
        let g = v[i];
        proof {
            assert(v@.take(i as int).push(v@[i as int]) =~= v@.take(i + 1));
        }
        r.push(g);
        i += 1;
    }
    proof {
        assert(v@.take(v@.len() as int) =~= v@);
    }
    r
}

/// Exhaustive search: at slot `e` with everything below already consumed,
/// try every reading of the rest, emitting each one that consumes the whole
/// hand with exactly one incomplete element. Besides soundness (every
/// emission reconstructs the original hand), the search is complete: every
/// way of finishing the current partial reading has its waiting kind
/// reported.
#[verifier::rlimit(100)]
#[verifier::spinoff_prover]
fn dfs(
    Ghost(orig): Ghost<Seq<u8>>,
    rem: &mut TileSet34,
    e: u8,
    groups: &mut Vec<HandGroup>,
    pair: Option<Tile>,
    wait: Option<WaitShape>,
    out: &mut Vec<RegularWait>,
)
    requires
        e <= 34,
        orig.len() == 34,
        old(rem)@.len() == 34,
        forall|x: int| 0 <= x < e ==> old(rem)@[x] == 0,
        forall|x: int|
            0 <= x < 34 ==> orig[x] == old(rem)@[x] + groups_hist(old(groups)@, x) + pair_hist(
                pair,
                x,
            ) + shape_hist(wait, x),
        forall|i: int| 0 <= i < old(groups)@.len() ==> (#[trigger] old(groups)@[i]).wf(),
        old(groups)@.len() <= 4,
        pair matches Some(t) ==> t.wf() && !spec_is_red(t@),
        shape_wf(wait),
    ensures
        final(rem)@ == old(rem)@,
        final(groups)@ == old(groups)@,
        final(out)@.len() >= old(out)@.len(),
        forall|i: int| 0 <= i < old(out)@.len() ==> final(out)@[i] == old(out)@[i],
        forall|i: int|
            old(out)@.len() <= i < final(out)@.len() ==> (#[trigger] final(out)@[i]).wf() && forall|
                x: int,
            | 0 <= x < 34 ==> final(out)@[i].tile_count(x) == orig[x],
        forall|mg: Seq<HandGroup>, mp: Option<Tile>, mw: Option<WaitShape>|
            #[trigger] completion_ok(old(rem)@, old(groups)@.len() as int, pair, wait, mg, mp, mw)
                ==> wait_found(final(out)@, completion_tau(wait, mw)),
    decreases
            34 - e,
            (if e < 34 {
                rem@[e as int] as int
            } else {
                0
            }),
            2int,
{
    if e == 34 {
        if let Some(w) = wait {
            let compat = if matches!(w.kind, WaitingKind::Tanki) {
                pair.is_none()
            } else {
                pair.is_some()
            };
            if compat {
                let rw = RegularWait {
                    groups: copy_groups(groups),
                    pair,
                    waiting_kind: w.kind,
                    pattern: w.pattern,
                    waiting_tile: w.waiting,
                };
                proof {
                    assert forall|x: int| 0 <= x < 34 implies rw.tile_count(x) == orig[x] by {
                        assert(rem@[x] == 0);
                    }
                }
                out.push(rw);
            }
        }
        proof {
            reveal(completion_ok);
            let rem0 = old(rem)@;
            let glen0 = old(groups)@.len() as int;
            assert forall|mg: Seq<HandGroup>, mp: Option<Tile>, mw: Option<WaitShape>|
                completion_ok(rem0, glen0, pair, wait, mg, mp, mw) implies wait_found(
                out@,
                completion_tau(wait, mw),
            ) by {
                // the whole hand is consumed: nothing can remain to choose
                if mg.len() > 0 {
                    lemma_group_anchor(mg[0]);
                    lemma_group_hist_le(mg, 0, group_anchor(mg[0]));
                    assert(rem0[group_anchor(mg[0])] == 0);
                    assert(false);
                }
                if mp is Some {
                    assert(rem0[mp->Some_0@] == 0);
                    assert(false);
                }
                if mw is Some {
                    assert(shape_hist(mw, mw->Some_0.pattern@) >= 1);
                    assert(rem0[mw->Some_0.pattern@] == 0);
                    assert(false);
                }
                // so the element is already fixed and the pair rule held:
                // the push above emitted exactly this waiting kind
                reveal(wait_found);
                assert(wait is Some);
                let w0 = wait->Some_0;
                assert((w0.kind == WaitingKind::Tanki) <==> (pair is None));
                assert(out@[out@.len() - 1].waiting_tile@ == completion_tau(wait, mw));
            }
        }
        return ;
    }
    let te = Tile::from_normal_encoding(e).unwrap();
    let c = rem.get(te);
    if c == 0 {
        dfs(Ghost(orig), rem, e + 1, groups, pair, wait, out);
        proof {
            assert forall|mg: Seq<HandGroup>, mp: Option<Tile>, mw: Option<WaitShape>|
                completion_ok(old(rem)@, old(groups)@.len() as int, pair, wait, mg, mp, mw)
                    implies wait_found(out@, completion_tau(wait, mw)) by {
                // the same completion finishes the search from the next slot
                assert(rem@ == old(rem)@);
            }
        }
        return ;
    }
    // the neighbouring tiles, where they exist (unused placeholders else)
    let t0 = if e >= 1 {
        Tile::from_normal_encoding(e - 1).unwrap()
    } else {
        te
    };
    let t1 = if e + 1 < 34 {
        Tile::from_normal_encoding(e + 1).unwrap()
    } else {
        te
    };
    let t2 = if e + 2 < 34 {
        Tile::from_normal_encoding(e + 2).unwrap()
    } else {
        te
    };
    let c1 = if e + 1 < 34 {
        rem.get(t1)
    } else {
        0
    };
    let c2 = if e + 2 < 34 {
        rem.get(t2)
    } else {
        0
    };
    let ghost out_in = out@;
    let Ghost(po_a) = dfs_fixed_kind(Ghost(orig), rem, e, groups, pair, wait, out, te, c);
    let ghost mid = out@;
    let Ghost(po_b) = dfs_runs(Ghost(orig), rem, e, groups, pair, wait, out, te, t0, t1, t2, c, c1, c2);
    proof {
        lemma_extends_step(out@, mid);
        lemma_extends_trans(out@, mid, po_a.0);
        lemma_extends_trans(out@, mid, po_a.1);
        lemma_extends_trans(out@, mid, po_a.2);
        lemma_extends_trans(out@, mid, po_a.3);
        lemma_dfs_complete_cases(
            old(rem)@,
            old(groups)@.len() as int,
            pair,
            wait,
            e as int,
            c,
            c1,
            c2,
            te,
            t0,
            t1,
            t2,
            po_a.0,
            po_a.1,
            po_a.2,
            po_a.3,
            po_b.0,
            po_b.1,
            po_b.2,
            po_b.3,
            po_b.4,
            po_b.5,
            out@,
        );
    }
}

/// The branches of one search step that stay on the current kind: a
/// triplet, the pair, a second pair as the wait, and a lone-tile wait.
/// Returns the output as it stood after each branch.
#[verifier::rlimit(100)]
#[verifier::spinoff_prover]
fn dfs_fixed_kind(
    Ghost(orig): Ghost<Seq<u8>>,
    rem: &mut TileSet34,
    e: u8,
    groups: &mut Vec<HandGroup>,
    pair: Option<Tile>,
    wait: Option<WaitShape>,
    out: &mut Vec<RegularWait>,
    te: Tile,
    c: u8,
) -> (r: Ghost<(Seq<RegularWait>, Seq<RegularWait>, Seq<RegularWait>, Seq<RegularWait>)>)
    requires
        e < 34,
        orig.len() == 34,
        old(rem)@.len() == 34,
        forall|x: int| 0 <= x < e ==> old(rem)@[x] == 0,
        forall|x: int|
            0 <= x < 34 ==> orig[x] == old(rem)@[x] + groups_hist(old(groups)@, x) + pair_hist(
                pair,
                x,
            ) + shape_hist(wait, x),
        forall|i: int| 0 <= i < old(groups)@.len() ==> (#[trigger] old(groups)@[i]).wf(),
        old(groups)@.len() <= 4,
        pair matches Some(t) ==> t.wf() && !spec_is_red(t@),
        shape_wf(wait),
        te.wf() && te@ == e as int,
        c as int == old(rem)@[e as int],
        c > 0,
    ensures
        final(rem)@ == old(rem)@,
        final(groups)@ == old(groups)@,
        final(out)@.len() >= old(out)@.len(),
        forall|i: int| 0 <= i < old(out)@.len() ==> final(out)@[i] == old(out)@[i],
        forall|i: int|
            old(out)@.len() <= i < final(out)@.len() ==> (#[trigger] final(out)@[i]).wf() && forall|
                x: int,
            | 0 <= x < 34 ==> final(out)@[i].tile_count(x) == orig[x],
        (c >= 3 && old(groups)@.len() < 4) ==> (forall|
            mg: Seq<HandGroup>,
            mp: Option<Tile>,
            mw: Option<WaitShape>,
        |
            #[trigger] completion_ok(
                old(rem)@.update(e as int, (c - 3) as u8),
                old(groups)@.len() as int + 1,
                pair,
                wait,
                mg,
                mp,
                mw,
            ) ==> wait_found(r@.0, completion_tau(wait, mw))),
        (pair is None && c >= 2) ==> (forall|
            mg: Seq<HandGroup>,
            mp: Option<Tile>,
            mw: Option<WaitShape>,
        |
            #[trigger] completion_ok(
                old(rem)@.update(e as int, (c - 2) as u8),
                old(groups)@.len() as int,
                Some(te),
                wait,
                mg,
                mp,
                mw,
            ) ==> wait_found(r@.1, completion_tau(wait, mw))),
        (wait is None && c >= 2) ==> (forall|
            mg: Seq<HandGroup>,
            mp: Option<Tile>,
            mw: Option<WaitShape>,
        |
            #[trigger] completion_ok(
                old(rem)@.update(e as int, (c - 2) as u8),
                old(groups)@.len() as int,
                pair,
                Some(WaitShape { kind: WaitingKind::Shanpon, pattern: te, waiting: te }),
                mg,
                mp,
                mw,
            ) ==> wait_found(r@.2, te@)),
        (wait is None && c >= 1) ==> (forall|
            mg: Seq<HandGroup>,
            mp: Option<Tile>,
            mw: Option<WaitShape>,
        |
            #[trigger] completion_ok(
                old(rem)@.update(e as int, (c - 1) as u8),
                old(groups)@.len() as int,
                pair,
                Some(WaitShape { kind: WaitingKind::Tanki, pattern: te, waiting: te }),
                mg,
                mp,
                mw,
            ) ==> wait_found(r@.3, te@)),
        seq_extends(final(out)@, r@.0),
        seq_extends(final(out)@, r@.1),
        seq_extends(final(out)@, r@.2),
        seq_extends(final(out)@, r@.3),
    decreases
            34 - e,
            rem@[e as int] as int,
            1int,
{
    let ghost mut po_kou: Seq<RegularWait> = Seq::empty();
    let ghost mut po_pair: Seq<RegularWait> = Seq::empty();
    let ghost mut po_shan: Seq<RegularWait> = Seq::empty();
    let ghost mut po_tan: Seq<RegularWait> = Seq::empty();
    proof {
        lemma_extends_empty(out@);
    }
    // a triplet of this kind
    if c >= 3 && groups.len() < 4 {
        rem.set(te, c - 3);
        let g = HandGroup::Koutsu(te);
        proof {
            assert forall|x: int| 0 <= x < 34 implies groups_hist(groups@.push(g), x)
                == groups_hist(groups@, x) + group_hist(g, x) by {
                lemma_groups_hist_push(groups@, g, x);
            }
        }
        groups.push(g);
        dfs(Ghost(orig), rem, e, groups, pair, wait, out);
        proof {
            po_kou = out@;
        }
        let _ = groups.pop();
        rem.set(te, c);
        proof {
            assert(groups@ =~= old(groups)@);
            assert(rem@ =~= old(rem)@);
        }
    }
    proof {
        lemma_extends_step(out@, po_kou);
    }
    let ghost chk1 = out@;
    // the pair of the hand
    if pair.is_none() && c >= 2 {
        rem.set(te, c - 2);
        dfs(Ghost(orig), rem, e, groups, Some(te), wait, out);
        proof {
            po_pair = out@;
        }
        rem.set(te, c);
        proof {
            assert(rem@ =~= old(rem)@);
        }
    }
    proof {
        lemma_extends_step(out@, chk1);
        lemma_extends_trans(out@, chk1, po_kou);
        lemma_extends_step(out@, po_pair);
    }
    let ghost chk2 = out@;
    // the incomplete element: a second pair waiting to be a triplet
    if wait.is_none() && c >= 2 {
        rem.set(te, c - 2);
        let w = WaitShape { kind: WaitingKind::Shanpon, pattern: te, waiting: te };
        dfs(Ghost(orig), rem, e, groups, pair, Some(w), out);
        proof {
            po_shan = out@;
        }
        rem.set(te, c);
        proof {
            assert(rem@ =~= old(rem)@);
        }
    }
    proof {
        lemma_extends_step(out@, chk2);
        lemma_extends_trans(out@, chk2, po_kou);
        lemma_extends_trans(out@, chk2, po_pair);
        lemma_extends_step(out@, po_shan);
    }
    let ghost chk3 = out@;
    // the incomplete element: a lone tile waiting to pair up
    if wait.is_none() && c >= 1 {
        rem.set(te, c - 1);
        let w = WaitShape { kind: WaitingKind::Tanki, pattern: te, waiting: te };
        dfs(Ghost(orig), rem, e, groups, pair, Some(w), out);
        proof {
            po_tan = out@;
        }
        rem.set(te, c);
        proof {
            assert(rem@ =~= old(rem)@);
        }
    }
    proof {
        lemma_extends_step(out@, chk3);
        lemma_extends_trans(out@, chk3, po_kou);
        lemma_extends_trans(out@, chk3, po_pair);
        lemma_extends_trans(out@, chk3, po_shan);
        lemma_extends_step(out@, po_tan);
    }
    Ghost((po_kou, po_pair, po_shan, po_tan))
}

/// The branches of one search step that reach into the next kinds: a run,
/// a closed-middle wait, and the adjacent-pair waits. Returns the output
/// as it stood after each branch.
#[verifier::rlimit(100)]
#[verifier::spinoff_prover]
fn dfs_runs(
    Ghost(orig): Ghost<Seq<u8>>,
    rem: &mut TileSet34,
    e: u8,
    groups: &mut Vec<HandGroup>,
    pair: Option<Tile>,
    wait: Option<WaitShape>,
    out: &mut Vec<RegularWait>,
    te: Tile,
    t0: Tile,
    t1: Tile,
    t2: Tile,
    c: u8,
    c1: u8,
    c2: u8,
) -> (r: Ghost<
    (
        Seq<RegularWait>,
        Seq<RegularWait>,
        Seq<RegularWait>,
        Seq<RegularWait>,
        Seq<RegularWait>,
        Seq<RegularWait>,
    ),
>)
    requires
        e < 34,
        orig.len() == 34,
        old(rem)@.len() == 34,
        forall|x: int| 0 <= x < e ==> old(rem)@[x] == 0,
        forall|x: int|
            0 <= x < 34 ==> orig[x] == old(rem)@[x] + groups_hist(old(groups)@, x) + pair_hist(
                pair,
                x,
            ) + shape_hist(wait, x),
        forall|i: int| 0 <= i < old(groups)@.len() ==> (#[trigger] old(groups)@[i]).wf(),
        old(groups)@.len() <= 4,
        pair matches Some(t) ==> t.wf() && !spec_is_red(t@),
        shape_wf(wait),
        te.wf() && te@ == e as int,
        t0.wf() && (e >= 1 ==> t0@ == e as int - 1),
        t1.wf() && (e + 1 < 34 ==> t1@ == e as int + 1),
        t2.wf() && (e + 2 < 34 ==> t2@ == e as int + 2),
        c as int == old(rem)@[e as int],
        c > 0,
        e + 1 < 34 ==> c1 as int == old(rem)@[e as int + 1],
        e + 2 < 34 ==> c2 as int == old(rem)@[e as int + 2],
    ensures
        final(rem)@ == old(rem)@,
        final(groups)@ == old(groups)@,
        final(out)@.len() >= old(out)@.len(),
        forall|i: int| 0 <= i < old(out)@.len() ==> final(out)@[i] == old(out)@[i],
        forall|i: int|
            old(out)@.len() <= i < final(out)@.len() ==> (#[trigger] final(out)@[i]).wf() && forall|
                x: int,
            | 0 <= x < 34 ==> final(out)@[i].tile_count(x) == orig[x],
        (e < 27 && e % 9 <= 6 && c1 >= 1 && c2 >= 1 && old(groups)@.len() < 4) ==> (forall|
            mg: Seq<HandGroup>,
            mp: Option<Tile>,
            mw: Option<WaitShape>,
        |
            #[trigger] completion_ok(
                old(rem)@.update(e as int, (c - 1) as u8).update(
                    e as int + 1,
                    (c1 - 1) as u8,
                ).update(e as int + 2, (c2 - 1) as u8),
                old(groups)@.len() as int + 1,
                pair,
                wait,
                mg,
                mp,
                mw,
            ) ==> wait_found(r@.0, completion_tau(wait, mw))),
        (e < 27 && e % 9 <= 6 && wait is None && c2 >= 1) ==> (forall|
            mg: Seq<HandGroup>,
            mp: Option<Tile>,
            mw: Option<WaitShape>,
        |
            #[trigger] completion_ok(
                old(rem)@.update(e as int, (c - 1) as u8).update(e as int + 2, (c2 - 1) as u8),
                old(groups)@.len() as int,
                pair,
                Some(WaitShape { kind: WaitingKind::Kanchan, pattern: te, waiting: t1 }),
                mg,
                mp,
                mw,
            ) ==> wait_found(r@.1, t1@)),
        (wait is None && e < 27 && e % 9 == 0 && c1 >= 1) ==> (forall|
            mg: Seq<HandGroup>,
            mp: Option<Tile>,
            mw: Option<WaitShape>,
        |
            #[trigger] completion_ok(
                old(rem)@.update(e as int, (c - 1) as u8).update(e as int + 1, (c1 - 1) as u8),
                old(groups)@.len() as int,
                pair,
                Some(WaitShape { kind: WaitingKind::Penchan, pattern: te, waiting: t2 }),
                mg,
                mp,
                mw,
            ) ==> wait_found(r@.2, t2@)),
        (wait is None && e < 27 && e % 9 == 7 && c1 >= 1) ==> (forall|
            mg: Seq<HandGroup>,
            mp: Option<Tile>,
            mw: Option<WaitShape>,
        |
            #[trigger] completion_ok(
                old(rem)@.update(e as int, (c - 1) as u8).update(e as int + 1, (c1 - 1) as u8),
                old(groups)@.len() as int,
                pair,
                Some(WaitShape { kind: WaitingKind::Penchan, pattern: te, waiting: t0 }),
                mg,
                mp,
                mw,
            ) ==> wait_found(r@.3, t0@)),
        (wait is None && e < 27 && 1 <= e % 9 <= 6 && c1 >= 1) ==> (forall|
            mg: Seq<HandGroup>,
            mp: Option<Tile>,
            mw: Option<WaitShape>,
        |
            #[trigger] completion_ok(
                old(rem)@.update(e as int, (c - 1) as u8).update(e as int + 1, (c1 - 1) as u8),
                old(groups)@.len() as int,
                pair,
                Some(WaitShape { kind: WaitingKind::Ryanmen, pattern: te, waiting: t0 }),
                mg,
                mp,
                mw,
            ) ==> wait_found(r@.4, t0@)),
        (wait is None && e < 27 && 1 <= e % 9 <= 6 && c1 >= 1) ==> (forall|
            mg: Seq<HandGroup>,
            mp: Option<Tile>,
            mw: Option<WaitShape>,
        |
            #[trigger] completion_ok(
                old(rem)@.update(e as int, (c - 1) as u8).update(e as int + 1, (c1 - 1) as u8),
                old(groups)@.len() as int,
                pair,
                Some(WaitShape { kind: WaitingKind::Ryanmen, pattern: te, waiting: t2 }),
                mg,
                mp,
                mw,
            ) ==> wait_found(r@.5, t2@)),
        seq_extends(final(out)@, r@.0),
        seq_extends(final(out)@, r@.1),
        seq_extends(final(out)@, r@.2),
        seq_extends(final(out)@, r@.3),
        seq_extends(final(out)@, r@.4),
        seq_extends(final(out)@, r@.5),
    decreases
            34 - e,
            rem@[e as int] as int,
            1int,
{
    let in_suit = e < 27;
    let num_idx = e % 9;
    let ghost mut po_shun: Seq<RegularWait> = Seq::empty();
    let ghost mut po_kan: Seq<RegularWait> = Seq::empty();
    let ghost mut po_pen0: Seq<RegularWait> = Seq::empty();
    let ghost mut po_pen7: Seq<RegularWait> = Seq::empty();
    let ghost mut po_ry_low: Seq<RegularWait> = Seq::empty();
    let ghost mut po_ry_high: Seq<RegularWait> = Seq::empty();
    proof {
        lemma_extends_empty(out@);
    }
    if in_suit && num_idx <= 6 {
        // a run starting at this kind
        if c1 >= 1 && c2 >= 1 && groups.len() < 4 {
            rem.set(te, c - 1);
            rem.set(t1, c1 - 1);
            rem.set(t2, c2 - 1);
            let g = HandGroup::Shuntsu(te);
            proof {
                assert forall|x: int| 0 <= x < 34 implies groups_hist(groups@.push(g), x)
                    == groups_hist(groups@, x) + group_hist(g, x) by {
                    lemma_groups_hist_push(groups@, g, x);
                }
            }
            groups.push(g);
            dfs(Ghost(orig), rem, e, groups, pair, wait, out);
            proof {
                po_shun = out@;
            }
            let _ = groups.pop();
            rem.set(t2, c2);
            rem.set(t1, c1);
            rem.set(te, c);
            proof {
                assert(groups@ =~= old(groups)@);
                assert(rem@ =~= old(rem)@);
            }
        }
        // the incomplete element: a closed-middle run
        if wait.is_none() && c2 >= 1 {
            rem.set(te, c - 1);
            rem.set(t2, c2 - 1);
            let w = WaitShape { kind: WaitingKind::Kanchan, pattern: te, waiting: t1 };
            dfs(Ghost(orig), rem, e, groups, pair, Some(w), out);
            proof {
                po_kan = out@;
            }
            rem.set(t2, c2);
            rem.set(te, c);
            proof {
                assert(rem@ =~= old(rem)@);
            }
        }
    }
    proof {
        lemma_extends_step(out@, po_shun);
        lemma_extends_step(out@, po_kan);
    }
    let ghost chk5 = out@;
    // the incomplete element: two adjacent tiles (edge or open-ended)
    if wait.is_none() && in_suit && num_idx <= 7 {
        if c1 >= 1 {
            rem.set(te, c - 1);
            rem.set(t1, c1 - 1);
            if num_idx == 0 {
                let w = WaitShape { kind: WaitingKind::Penchan, pattern: te, waiting: t2 };
                dfs(Ghost(orig), rem, e, groups, pair, Some(w), out);
                proof {
                    po_pen0 = out@;
                }
            } else if num_idx == 7 {
                let w = WaitShape { kind: WaitingKind::Penchan, pattern: te, waiting: t0 };
                dfs(Ghost(orig), rem, e, groups, pair, Some(w), out);
                proof {
                    po_pen7 = out@;
                }
            } else {
                let w0 = WaitShape { kind: WaitingKind::Ryanmen, pattern: te, waiting: t0 };
                dfs(Ghost(orig), rem, e, groups, pair, Some(w0), out);
                proof {
                    po_ry_low = out@;
                }
                let w2 = WaitShape { kind: WaitingKind::Ryanmen, pattern: te, waiting: t2 };
                dfs(Ghost(orig), rem, e, groups, pair, Some(w2), out);
                proof {
                    po_ry_high = out@;
                }
            }
            rem.set(t1, c1);
            rem.set(te, c);
            proof {
                assert(rem@ =~= old(rem)@);
            }
        }
    }
    proof {
        lemma_extends_step(out@, chk5);
        lemma_extends_trans(out@, chk5, po_shun);
        lemma_extends_trans(out@, chk5, po_kan);
        lemma_extends_step(out@, po_pen0);
        lemma_extends_step(out@, po_pen7);
        lemma_extends_step(out@, po_ry_low);
        lemma_extends_step(out@, po_ry_high);
    }
    Ghost((po_shun, po_kan, po_pen0, po_pen7, po_ry_low, po_ry_high))
}

/// The completeness case split of one search step: whatever way a
/// completion uses the lowest occupied slot, the corresponding branch of
/// the search has already reported its waiting kind, and later branches
/// kept it in the output.
#[verifier::rlimit(100)]
#[verifier::spinoff_prover]
proof fn lemma_dfs_complete_cases(
    rem0: Seq<u8>,
    glen0: int,
    pair: Option<Tile>,
    wait: Option<WaitShape>,
    ee: int,
    c: u8,
    c1: u8,
    c2: u8,
    te: Tile,
    t0: Tile,
    t1: Tile,
    t2: Tile,
    po_kou: Seq<RegularWait>,
    po_pair: Seq<RegularWait>,
    po_shan: Seq<RegularWait>,
    po_tan: Seq<RegularWait>,
    po_shun: Seq<RegularWait>,
    po_kan: Seq<RegularWait>,
    po_pen0: Seq<RegularWait>,
    po_pen7: Seq<RegularWait>,
    po_ry_low: Seq<RegularWait>,
    po_ry_high: Seq<RegularWait>,
    outf: Seq<RegularWait>,
)
    requires
        rem0.len() == 34,
        0 <= ee < 34,
        forall|x: int| 0 <= x < ee ==> rem0[x] == 0,
        c as int == rem0[ee],
        c > 0,
        ee + 1 < 34 ==> c1 as int == rem0[ee + 1],
        ee + 2 < 34 ==> c2 as int == rem0[ee + 2],
        te.wf() && te@ == ee,
        t0.wf() && (ee >= 1 ==> t0@ == ee - 1),
        t1.wf() && (ee + 1 < 34 ==> t1@ == ee + 1),
        t2.wf() && (ee + 2 < 34 ==> t2@ == ee + 2),
        // each branch of the search handled the completions it covers
        (c >= 3 && glen0 < 4) ==> (forall|mg: Seq<HandGroup>, mp: Option<Tile>, mw: Option<
            WaitShape,
        >|
            #[trigger] completion_ok(
                rem0.update(ee, (c - 3) as u8),
                glen0 + 1,
                pair,
                wait,
                mg,
                mp,
                mw,
            ) ==> wait_found(po_kou, completion_tau(wait, mw))),
        (pair is None && c >= 2) ==> (forall|mg: Seq<HandGroup>, mp: Option<Tile>, mw: Option<
            WaitShape,
        >|
            #[trigger] completion_ok(
                rem0.update(ee, (c - 2) as u8),
                glen0,
                Some(te),
                wait,
                mg,
                mp,
                mw,
            ) ==> wait_found(po_pair, completion_tau(wait, mw))),
        (wait is None && c >= 2) ==> (forall|mg: Seq<HandGroup>, mp: Option<Tile>, mw: Option<
            WaitShape,
        >|
            #[trigger] completion_ok(
                rem0.update(ee, (c - 2) as u8),
                glen0,
                pair,
                Some(WaitShape { kind: WaitingKind::Shanpon, pattern: te, waiting: te }),
                mg,
                mp,
                mw,
            ) ==> wait_found(po_shan, te@)),
        (wait is None && c >= 1) ==> (forall|mg: Seq<HandGroup>, mp: Option<Tile>, mw: Option<
            WaitShape,
        >|
            #[trigger] completion_ok(
                rem0.update(ee, (c - 1) as u8),
                glen0,
                pair,
                Some(WaitShape { kind: WaitingKind::Tanki, pattern: te, waiting: te }),
                mg,
                mp,
                mw,
            ) ==> wait_found(po_tan, te@)),
        (ee < 27 && ee % 9 <= 6 && c1 >= 1 && c2 >= 1 && glen0 < 4) ==> (forall|
            mg: Seq<HandGroup>,
            mp: Option<Tile>,
            mw: Option<WaitShape>,
        |
            #[trigger] completion_ok(
                rem0.update(ee, (c - 1) as u8).update(ee + 1, (c1 - 1) as u8).update(
                    ee + 2,
                    (c2 - 1) as u8,
                ),
                glen0 + 1,
                pair,
                wait,
                mg,
                mp,
                mw,
            ) ==> wait_found(po_shun, completion_tau(wait, mw))),
        (ee < 27 && ee % 9 <= 6 && wait is None && c2 >= 1) ==> (forall|
            mg: Seq<HandGroup>,
            mp: Option<Tile>,
            mw: Option<WaitShape>,
        |
            #[trigger] completion_ok(
                rem0.update(ee, (c - 1) as u8).update(ee + 2, (c2 - 1) as u8),
                glen0,
                pair,
                Some(WaitShape { kind: WaitingKind::Kanchan, pattern: te, waiting: t1 }),
                mg,
                mp,
                mw,
            ) ==> wait_found(po_kan, t1@)),
        (wait is None && ee < 27 && ee % 9 == 0 && c1 >= 1) ==> (forall|
            mg: Seq<HandGroup>,
            mp: Option<Tile>,
            mw: Option<WaitShape>,
        |
            #[trigger] completion_ok(
                rem0.update(ee, (c - 1) as u8).update(ee + 1, (c1 - 1) as u8),
                glen0,
                pair,
                Some(WaitShape { kind: WaitingKind::Penchan, pattern: te, waiting: t2 }),
                mg,
                mp,
                mw,
            ) ==> wait_found(po_pen0, t2@)),
        (wait is None && ee < 27 && ee % 9 == 7 && c1 >= 1) ==> (forall|
            mg: Seq<HandGroup>,
            mp: Option<Tile>,
            mw: Option<WaitShape>,
        |
            #[trigger] completion_ok(
                rem0.update(ee, (c - 1) as u8).update(ee + 1, (c1 - 1) as u8),
                glen0,
                pair,
                Some(WaitShape { kind: WaitingKind::Penchan, pattern: te, waiting: t0 }),
                mg,
                mp,
                mw,
            ) ==> wait_found(po_pen7, t0@)),
        (wait is None && ee < 27 && 1 <= ee % 9 <= 6 && c1 >= 1) ==> (forall|
            mg: Seq<HandGroup>,
            mp: Option<Tile>,
            mw: Option<WaitShape>,
        |
            #[trigger] completion_ok(
                rem0.update(ee, (c - 1) as u8).update(ee + 1, (c1 - 1) as u8),
                glen0,
                pair,
                Some(WaitShape { kind: WaitingKind::Ryanmen, pattern: te, waiting: t0 }),
                mg,
                mp,
                mw,
            ) ==> wait_found(po_ry_low, t0@)),
        (wait is None && ee < 27 && 1 <= ee % 9 <= 6 && c1 >= 1) ==> (forall|
            mg: Seq<HandGroup>,
            mp: Option<Tile>,
            mw: Option<WaitShape>,
        |
            #[trigger] completion_ok(
                rem0.update(ee, (c - 1) as u8).update(ee + 1, (c1 - 1) as u8),
                glen0,
                pair,
                Some(WaitShape { kind: WaitingKind::Ryanmen, pattern: te, waiting: t2 }),
                mg,
                mp,
                mw,
            ) ==> wait_found(po_ry_high, t2@)),
        seq_extends(outf, po_kou),
        seq_extends(outf, po_pair),
        seq_extends(outf, po_shan),
        seq_extends(outf, po_tan),
        seq_extends(outf, po_shun),
        seq_extends(outf, po_kan),
        seq_extends(outf, po_pen0),
        seq_extends(outf, po_pen7),
        seq_extends(outf, po_ry_low),
        seq_extends(outf, po_ry_high),
    ensures
        forall|mg: Seq<HandGroup>, mp: Option<Tile>, mw: Option<WaitShape>|
            #[trigger] completion_ok(rem0, glen0, pair, wait, mg, mp, mw) ==> wait_found(
                outf,
                completion_tau(wait, mw),
            ),
{
    assert forall|mg: Seq<HandGroup>, mp: Option<Tile>, mw: Option<WaitShape>|
        completion_ok(rem0, glen0, pair, wait, mg, mp, mw) implies wait_found(
        outf,
        completion_tau(wait, mw),
    ) by {
        reveal(completion_ok);
        let tau = completion_tau(wait, mw);
        lemma_groups_hist_nonneg(mg, ee);
        assert(groups_hist(mg, ee) + pair_hist(mp, ee) + shape_hist(mw, ee) == c);
        if groups_hist(mg, ee) > 0 {
            // some further complete group starts exactly here
            lemma_groups_hist_pick(mg, ee);
            let i = choose|i: int| 0 <= i < mg.len() && group_hist(#[trigger] mg[i], ee) > 0;
            match mg[i] {
                HandGroup::Koutsu(t) => {
                    assert(t@ == ee);
                    lemma_completion_after_koutsu(rem0, glen0, pair, wait, mg, mp, mw, i, ee);
                    assert(completion_ok(
                        rem0.update(ee, (c - 3) as u8),
                        glen0 + 1,
                        pair,
                        wait,
                        mg.remove(i),
                        mp,
                        mw,
                    ));
                    lemma_wait_found_extends(outf, po_kou, tau);
                },
                HandGroup::Shuntsu(t) => {
                    lemma_group_hist_le(mg, i, t@);
                    lemma_groups_hist_nonneg(mg, t@);
                    assert(rem0[t@] >= 1);
                    assert(t@ == ee);
                    lemma_group_hist_le(mg, i, ee + 1);
                    lemma_group_hist_le(mg, i, ee + 2);
                    lemma_groups_hist_nonneg(mg, ee + 1);
                    lemma_groups_hist_nonneg(mg, ee + 2);
                    assert(rem0[ee + 1] >= 1 && rem0[ee + 2] >= 1);
                    lemma_completion_after_shuntsu(rem0, glen0, pair, wait, mg, mp, mw, i, ee);
                    assert(completion_ok(
                        rem0.update(ee, (c - 1) as u8).update(ee + 1, (c1 - 1) as u8).update(
                            ee + 2,
                            (c2 - 1) as u8,
                        ),
                        glen0 + 1,
                        pair,
                        wait,
                        mg.remove(i),
                        mp,
                        mw,
                    ));
                    lemma_wait_found_extends(outf, po_shun, tau);
                },
            }
        } else if pair_hist(mp, ee) > 0 {
            // the final pair sits here; which tile stands for it is free
            assert(mp matches Some(t) && t@ == ee);
            lemma_completion_after_pair(rem0, glen0, wait, mg, mp, mw, ee, te);
            assert(completion_ok(
                rem0.update(ee, (c - 2) as u8),
                glen0,
                Some(te),
                wait,
                mg,
                None,
                mw,
            ));
            lemma_wait_found_extends(outf, po_pair, tau);
        } else {
            // the incomplete element starts here
            assert(shape_hist(mw, ee) > 0);
            assert(wait is None && mw is Some);
            let w = mw->Some_0;
            lemma_groups_hist_nonneg(mg, w.pattern@);
            assert(shape_hist(mw, w.pattern@) >= 1);
            assert(rem0[w.pattern@] >= 1);
            assert(w.pattern@ == ee);
            match w.kind {
                WaitingKind::Tanki => {
                    let nw = WaitShape { kind: WaitingKind::Tanki, pattern: te, waiting: te };
                    lemma_completion_after_shape(
                        rem0,
                        rem0.update(ee, (c - 1) as u8),
                        glen0,
                        pair,
                        mg,
                        mp,
                        w,
                        nw,
                    );
                    assert(tau == te@);
                    lemma_wait_found_extends(outf, po_tan, tau);
                },
                WaitingKind::Shanpon => {
                    let nw = WaitShape { kind: WaitingKind::Shanpon, pattern: te, waiting: te };
                    lemma_completion_after_shape(
                        rem0,
                        rem0.update(ee, (c - 2) as u8),
                        glen0,
                        pair,
                        mg,
                        mp,
                        w,
                        nw,
                    );
                    assert(tau == te@);
                    lemma_wait_found_extends(outf, po_shan, tau);
                },
                WaitingKind::Kanchan => {
                    lemma_groups_hist_nonneg(mg, ee + 2);
                    assert(rem0[ee + 2] >= 1);
                    let nw = WaitShape { kind: WaitingKind::Kanchan, pattern: te, waiting: t1 };
                    lemma_completion_after_shape(
                        rem0,
                        rem0.update(ee, (c - 1) as u8).update(ee + 2, (c2 - 1) as u8),
                        glen0,
                        pair,
                        mg,
                        mp,
                        w,
                        nw,
                    );
                    assert(tau == t1@);
                    lemma_wait_found_extends(outf, po_kan, tau);
                },
                WaitingKind::Penchan => {
                    lemma_groups_hist_nonneg(mg, ee + 1);
                    assert(rem0[ee + 1] >= 1);
                    if spec_num(w.pattern@) == 1 {
                        let nw = WaitShape { kind: WaitingKind::Penchan, pattern: te, waiting: t2 };
                        lemma_completion_after_shape(
                            rem0,
                            rem0.update(ee, (c - 1) as u8).update(ee + 1, (c1 - 1) as u8),
                            glen0,
                            pair,
                            mg,
                            mp,
                            w,
                            nw,
                        );
                        assert(tau == t2@);
                        lemma_wait_found_extends(outf, po_pen0, tau);
                    } else {
                        let nw = WaitShape { kind: WaitingKind::Penchan, pattern: te, waiting: t0 };
                        lemma_completion_after_shape(
                            rem0,
                            rem0.update(ee, (c - 1) as u8).update(ee + 1, (c1 - 1) as u8),
                            glen0,
                            pair,
                            mg,
                            mp,
                            w,
                            nw,
                        );
                        assert(tau == t0@);
                        lemma_wait_found_extends(outf, po_pen7, tau);
                    }
                },
                WaitingKind::Ryanmen => {
                    lemma_groups_hist_nonneg(mg, ee + 1);
                    assert(rem0[ee + 1] >= 1);
                    if w.waiting@ == ee - 1 {
                        let nw = WaitShape { kind: WaitingKind::Ryanmen, pattern: te, waiting: t0 };
                        lemma_completion_after_shape(
                            rem0,
                            rem0.update(ee, (c - 1) as u8).update(ee + 1, (c1 - 1) as u8),
                            glen0,
                            pair,
                            mg,
                            mp,
                            w,
                            nw,
                        );
                        assert(tau == t0@);
                        lemma_wait_found_extends(outf, po_ry_low, tau);
                    } else {
                        let nw = WaitShape { kind: WaitingKind::Ryanmen, pattern: te, waiting: t2 };
                        lemma_completion_after_shape(
                            rem0,
                            rem0.update(ee, (c - 1) as u8).update(ee + 1, (c1 - 1) as u8),
                            glen0,
                            pair,
                            mg,
                            mp,
                            w,
                            nw,
                        );
                        assert(tau == t2@);
                        lemma_wait_found_extends(outf, po_ry_high, tau);
                    }
                },
            }
        }
    }
}

/// Enumerates every reading of the closed hand as complete groups, a pair
/// and one incomplete element. Sound: every reading returned reconstructs
/// the hand, its groups, pair and incomplete element summing to `h` kind
/// by kind. Complete: every well-formed reading that reconstructs `h` has
/// its waiting kind among the results.
pub fn decompose(h: &TileSet34) -> (r: Vec<RegularWait>)
    requires
        h@.len() == 34,
    ensures
        forall|i: int|
            0 <= i < r@.len() ==> (#[trigger] r@[i]).wf() && forall|x: int|
                0 <= x < 34 ==> r@[i].tile_count(x) == h@[x],
        forall|w: RegularWait|
            ((#[trigger] w.wf()) && (forall|x: int|
                0 <= x < 34 ==> #[trigger] w.tile_count(x) == h@[x])) ==> exists|i: int|
                0 <= i < r@.len() && (#[trigger] r@[i]).waiting_tile@ == w.waiting_tile@,
{
    let mut rem = *h;
    let mut groups: Vec<HandGroup> = Vec::new();
    let mut out: Vec<RegularWait> = Vec::new();
    dfs(Ghost(h@), &mut rem, 0, &mut groups, None, None, &mut out);
    proof {
        assert forall|w: RegularWait|
            (w.wf() && (forall|x: int|
                0 <= x < 34 ==> #[trigger] w.tile_count(x) == h@[x])) implies exists|i: int|
            0 <= i < out@.len() && (#[trigger] out@[i]).waiting_tile@ == w.waiting_tile@ by {
            reveal(completion_ok);
            reveal(wait_found);
            let mw = Some(
                WaitShape { kind: w.waiting_kind, pattern: w.pattern, waiting: w.waiting_tile },
            );
            assert(shape_wf(mw));
            assert forall|x: int|
                0 <= x < 34 implies groups_hist(w.groups@, x) + pair_hist(w.pair, x) + shape_hist(
                mw,
                x,
            ) == h@[x] by {
                assert(w.tile_count(x) == h@[x]);
            }
            assert(completion_ok(h@, 0, None, None, w.groups@, w.pair, mw));
            assert(wait_found(out@, completion_tau(None, mw)));
            assert(completion_tau(None, mw) == w.waiting_tile@);
        }
    }
    out
}

/// A 34-way histogram `h2` is exactly partitioned by `groups` plus a pair
/// of `pair`: the shape of a complete (sub)hand.
pub open spec fn is_complete_partition(h2: Seq<u8>, groups: Seq<HandGroup>, pair: int) -> bool {
    forall|e: int|
        0 <= e < 34 ==> h2[e] == groups_hist(groups, e) + (if pair == e {
            2int
        } else {
            0int
        })
}

/// Adding a reading's waiting tile to its hand completes the hand: the
/// extended histogram is exactly partitioned into complete groups plus one
/// pair (the incomplete element, completed, joins the groups or becomes the
/// pair).
pub proof fn lemma_wait_completes(w: RegularWait, h: Seq<u8>, h2: Seq<u8>)
    requires
        w.wf(),
        h.len() == 34,
        h2.len() == 34,
        forall|x: int| 0 <= x < 34 ==> w.tile_count(x) == h[x],
        0 <= w.waiting_tile@ < 34,
        forall|x: int|
            0 <= x < 34 ==> h2[x] == h[x] + (if x == w.waiting_tile@ {
                1int
            } else {
                0int
            }),
    ensures
        exists|gs: Seq<HandGroup>, pr: int| is_complete_partition(h2, gs, pr),
{
    match w.waiting_kind {
        WaitingKind::Tanki => {
            let gs = w.groups@;
            let pr = w.pattern@;
            assert(is_complete_partition(h2, gs, pr));
        },
        WaitingKind::Shanpon => {
            let g = HandGroup::Koutsu(w.pattern);
            let gs = w.groups@.push(g);
            let pr = w.pair.unwrap()@;
            assert forall|x: int| 0 <= x < 34 implies groups_hist(gs, x) == groups_hist(
                w.groups@,
                x,
            ) + group_hist(g, x) by {
                lemma_groups_hist_push(w.groups@, g, x);
            }
            assert(is_complete_partition(h2, gs, pr));
        },
        _ => {
            let low = if w.waiting_tile@ < w.pattern@ {
                w.waiting_tile
            } else {
                w.pattern
            };
            let g = HandGroup::Shuntsu(low);
            let gs = w.groups@.push(g);
            let pr = w.pair.unwrap()@;
            assert forall|x: int| 0 <= x < 34 implies groups_hist(gs, x) == groups_hist(
                w.groups@,
                x,
            ) + group_hist(g, x) by {
                lemma_groups_hist_push(w.groups@, g, x);
            }
            assert(is_complete_partition(h2, gs, pr));
        },
    }
}

/// Number of slots among the first `n` whose count equals `v`.
pub open spec fn count_eq(h: Seq<u8>, v: int, n: int) -> int
    decreases n,
{
    if n <= 0 {
        0
    } else {
        count_eq(h, v, n - 1) + if h[n - 1] == v {
            1int
        } else {
            0int
        }
    }
}

/// Number of slots among the first `n` holding three or more.
pub open spec fn count_ge3(h: Seq<u8>, n: int) -> int
    decreases n,
{
    if n <= 0 {
        0
    } else {
        count_ge3(h, n - 1) + if h[n - 1] >= 3 {
            1int
        } else {
            0int
        }
    }
}

/// Is `e` one of the thirteen terminal or honor kinds?
pub open spec fn is_orphan_slot(e: int) -> bool {
    if e < 27 {
        e % 9 == 0 || e % 9 == 8
    } else {
        e < 34
    }
}

/// Number of orphan slots among the first `n` whose count equals `v`.
pub open spec fn count_orphan_eq(h: Seq<u8>, v: int, n: int) -> int
    decreases n,
{
    if n <= 0 {
        0
    } else {
        count_orphan_eq(h, v, n - 1) + if is_orphan_slot(n - 1) && h[n - 1] == v {
            1int
        } else {
            0int
        }
    }
}

/// Number of non-orphan slots among the first `n` holding anything.
pub open spec fn count_nonorphan_used(h: Seq<u8>, n: int) -> int
    decreases n,
{
    if n <= 0 {
        0
    } else {
        count_nonorphan_used(h, n - 1) + if !is_orphan_slot(n - 1) && h[n - 1] != 0 {
            1int
        } else {
            0int
        }
    }
}

/// A waiting hand by the seven-pairs rule: six kinds held twice, the
/// waiting kind held once, nothing else.
pub open spec fn is_seven_pairs_wait(h: Seq<u8>, t: int) -> bool {
    &&& 0 <= t < 34
    &&& h[t] == 1
    &&& count_eq(h, 1, 34) == 1
    &&& count_eq(h, 2, 34) == 6
    &&& count_ge3(h, 34) == 0
}

/// The thirteen-orphans wait on every kind: each of the thirteen terminal
/// and honor kinds held exactly once, nothing else.
pub open spec fn is_kokushi_all_wait(h: Seq<u8>) -> bool {
    &&& count_orphan_eq(h, 1, 34) == 13
    &&& count_nonorphan_used(h, 34) == 0
    &&& forall|x: int| 0 <= x < 34 && is_orphan_slot(x) ==> h[x] == 1
}

/// The single-wait thirteen orphans: twelve of the thirteen kinds held
/// (one of them twice), `missing` absent, nothing else.
pub open spec fn is_kokushi_single_wait(h: Seq<u8>, missing: int) -> bool {
    &&& 0 <= missing < 34
    &&& is_orphan_slot(missing)
    &&& h[missing] == 0
    &&& count_orphan_eq(h, 1, 34) == 11
    &&& count_orphan_eq(h, 2, 34) == 1
    &&& count_orphan_eq(h, 0, 34) == 1
    &&& count_nonorphan_used(h, 34) == 0
}

/// An irregular (non-group) waiting reading.
#[derive(Clone, Copy, Debug, PartialEq, Eq, Structural, Hash)]
pub enum IrregularWait {
    /// Seven pairs, waiting to pair up the given tile.
    SevenPairs(Tile),
    /// Thirteen orphans, waiting on the given missing kind.
    ThirteenOrphans(Tile),
    /// Thirteen orphans with all thirteen kinds present: waits on any.
    ThirteenOrphansAll,
}

/// Detects an irregular wait of the closed hand: seven pairs first, then
/// the two thirteen-orphans shapes. `None` exactly when none applies.
pub fn detect_irregular_wait(h: &TileSet34) -> (r: Option<IrregularWait>)
    requires
        h@.len() == 34,
    ensures
        r matches Some(IrregularWait::SevenPairs(t)) ==> t.wf() && is_seven_pairs_wait(h@, t@),
        r matches Some(IrregularWait::ThirteenOrphans(t)) ==> t.wf() && is_kokushi_single_wait(
            h@,
            t@,
        ),
        r == Some(IrregularWait::ThirteenOrphansAll) ==> is_kokushi_all_wait(h@),
        r is None ==> (forall|t: int| !is_seven_pairs_wait(h@, t)) && (forall|t: int|
            !is_kokushi_single_wait(h@, t)) && !is_kokushi_all_wait(h@),
{
    let mut ones: u8 = 0;
    let mut twos: u8 = 0;
    let mut ge3: u8 = 0;
    let mut single: Option<Tile> = None;
    let mut o0: u8 = 0;
    let mut o1: u8 = 0;
    let mut o2: u8 = 0;
    let mut nonorphan_used: u8 = 0;
    let mut missing: Option<Tile> = None;
    let mut e: usize = 0;
    while e < 34
        invariant
            e <= 34,
            h@.len() == 34,
            ones as int == count_eq(h@, 1, e as int),
            twos as int == count_eq(h@, 2, e as int),
            ge3 as int == count_ge3(h@, e as int),
            o0 as int == count_orphan_eq(h@, 0, e as int),
            o1 as int == count_orphan_eq(h@, 1, e as int),
            o2 as int == count_orphan_eq(h@, 2, e as int),
            nonorphan_used as int == count_nonorphan_used(h@, e as int),
            ones as int <= e as int && twos as int <= e as int && ge3 as int <= e as int,
            o0 as int <= e as int && o1 as int <= e as int && o2 as int <= e as int,
            nonorphan_used as int <= e as int,
            single matches Some(t) ==> t.wf() && 0 <= t@ < 34 && h@[t@] == 1,
            ones >= 1 ==> single is Some,
            missing matches Some(t) ==> t.wf() && 0 <= t@ < 34 && is_orphan_slot(t@) && h@[t@]
                == 0,
            o0 >= 1 ==> missing is Some,
        decreases 34 - e,
    {
        let t = Tile::from_normal_encoding(e as u8).unwrap();
        let c = h.get(t);
        if c == 1 {
            ones += 1;
            if single.is_none() {
                single = Some(t);
            }
        } else if c == 2 {
            twos += 1;
        } else if c >= 3 {
            ge3 += 1;
        }
        if t.is_terminal_or_honor() {
            if c == 0 {
                o0 += 1;
                if missing.is_none() {
                    missing = Some(t);
                }
            } else if c == 1 {
                o1 += 1;
            } else if c == 2 {
                o2 += 1;
            }
        } else {
            if c != 0 {
                nonorphan_used += 1;
            }
        }
        e += 1;
    }
    if ones == 1 && twos == 6 && ge3 == 0 {
        if let Some(t) = single {
            return Some(IrregularWait::SevenPairs(t));
        }
    }
    if nonorphan_used == 0 && o1 == 13 {
        proof {
            lemma_orphans_all(h@);
        }
        return Some(IrregularWait::ThirteenOrphansAll);
    }
    if nonorphan_used == 0 && o1 == 11 && o2 == 1 && o0 == 1 {
        if let Some(t) = missing {
            return Some(IrregularWait::ThirteenOrphans(t));
        }
    }
    None
}

/// There are thirteen orphan slots, so a full count-one tally of thirteen
/// forces every orphan slot to hold exactly one.
proof fn lemma_orphans_all(h: Seq<u8>)
    requires
        h.len() == 34,
        count_orphan_eq(h, 1, 34) == 13,
    ensures
        forall|x: int| 0 <= x < 34 && is_orphan_slot(x) ==> h[x] == 1,
{
    assert(orphan_slots_upto(34) == 13) by {
        reveal_with_fuel(orphan_slots_upto, 35);
    }
    assert forall|x: int| 0 <= x < 34 && is_orphan_slot(x) implies h[x] == 1 by {
        if h[x] != 1 {
            lemma_orphan_count_split(h, x, 1, 34);
            lemma_orphan_count_bound(h, 1, x);
            lemma_orphan_count_bound_from(h, 1, x + 1);
            lemma_orphan_slots_mono(x);
            assert(false);
        }
    }
}

/// The orphan count-`v` tally over a prefix is at most the number of
/// orphan slots in it, which is at most thirteen.
proof fn lemma_orphan_count_bound(h: Seq<u8>, v: int, n: int)
    requires
        0 <= n <= 34,
    ensures
        count_orphan_eq(h, v, n) <= orphan_slots_upto(n),
        count_orphan_eq(h, v, n) >= 0,
    decreases n,
{
    if n > 0 {
        lemma_orphan_count_bound(h, v, n - 1);
    }
}

/// Number of orphan slots below `n`.
pub open spec fn orphan_slots_upto(n: int) -> int
    decreases n,
{
    if n <= 0 {
        0
    } else {
        orphan_slots_upto(n - 1) + if is_orphan_slot(n - 1) {
            1int
        } else {
            0int
        }
    }
}

/// Splits the orphan tally around slot `x`.
proof fn lemma_orphan_count_split(h: Seq<u8>, x: int, v: int, n: int)
    requires
        0 <= x < n <= 34,
    ensures
        count_orphan_eq(h, v, n) == count_orphan_eq(h, v, x) + (if is_orphan_slot(x) && h[x] == v {
            1int
        } else {
            0int
        }) + count_from(h, v, x + 1, n),
    decreases n,
{
    if n - 1 > x {
        lemma_orphan_count_split(h, x, v, n - 1);
    }
}

/// The orphan-slot tally grows one step at a time.
proof fn lemma_orphan_slots_mono(x: int)
    requires
        0 <= x < 34,
    ensures
        orphan_slots_upto(x + 1) == orphan_slots_upto(x) + (if is_orphan_slot(x) {
            1int
        } else {
            0int
        }),
{
}

/// The orphan count-`v` tally of slots in `from..n`.
pub open spec fn count_from(h: Seq<u8>, v: int, from: int, n: int) -> int
    decreases n - from,
{
    if n <= from {
        0
    } else {
        count_from(h, v, from, n - 1) + if is_orphan_slot(n - 1) && h[n - 1] == v {
            1int
        } else {
            0int
        }
    }
}

/// The partial orphan tally from `from` is at most the orphan slots there.
proof fn lemma_orphan_count_bound_from(h: Seq<u8>, v: int, from: int)
    requires
        0 <= from <= 34,
    ensures
        count_from(h, v, from, 34) <= orphan_slots_upto(34) - orphan_slots_upto(from),
        count_from(h, v, from, 34) >= 0,
{
    lemma_orphan_count_bound_from_rec(h, v, from, 34);
}

proof fn lemma_orphan_count_bound_from_rec(h: Seq<u8>, v: int, from: int, n: int)
    requires
        0 <= from <= n <= 34,
    ensures
        count_from(h, v, from, n) <= orphan_slots_upto(n) - orphan_slots_upto(from),
        count_from(h, v, from, n) >= 0,
    decreases n,
{
    if n > from {
        lemma_orphan_count_bound_from_rec(h, v, from, n - 1);
    }
}

} // verus!
