//! The turn-cycle state machine: validates actions and reactions, resolves
//! them by priority, evolves the round state, detects aborts, and scores
//! wins.
//!
//! A turn runs `register_action`, then any number of `register_reaction`
//! calls, then `step`. Only `step` changes the visible [`State`];
//! registering merely validates and caches.

use vstd::prelude::*;

use crate::tile::{Tile, spec_normal, spec_is_terminal_or_honor};
use crate::tile_set::{
    TileSet34,
    TileSet37,
    count_norm,
    lemma_count_enc_le_len,
    lemma_count_norm_concat,
    lemma_count_norm_le_len,
    lemma_count_norm_split,
    lemma_total_is_len,
    sum_counts,
};
use crate::player::Player;
use crate::meld::{Meld, Chii, Pon, Kakan, Daiminkan, Ankan};
use crate::model::{
    Action,
    ActionError,
    ActionResult,
    AgariKind,
    AgariResult,
    Discard,
    FuritenFlags,
    GameStep,
    Reaction,
    ReactionError,
    RiichiFlags,
    RoundBegin,
    RoundEnd,
    State,
    StateCore,
};
use crate::decomp::{IrregularWait, RegularWait, decompose, detect_irregular_wait, is_orphan_slot};

verus! {

// ---------------------------------------------------------------------------
// Conservation of tiles
// ---------------------------------------------------------------------------
/// Tiles a meld keeps on the table that did not come from a discard: the
/// own tiles (a kakan also holds its added tile; its two pon tiles count
/// here as well since the kakan replaced the pon).
pub open spec fn meld_own_tiles(m: Meld) -> int {
    match m {
        Meld::Chii(_) => 2,
        Meld::Pon(_) => 2,
        Meld::Kakan(_) => 3,
        Meld::Daiminkan(_) => 3,
        Meld::Ankan(_) => 4,
    }
}

/// Own tiles of all melds together.
pub open spec fn melds_own_total(ms: Seq<Meld>) -> int
    decreases ms.len(),
{
    if ms.len() == 0 {
        0
    } else {
        melds_own_total(ms.drop_last()) + meld_own_tiles(ms.last())
    }
}

/// The tiles one player accounts for: closed hand, meld own tiles, and the
/// own discard stream (called-away discards stay in the stream).
pub open spec fn player_visible(s: State, p: int) -> int {
    sum_counts(s.closed_hands@[p]@, 37) + melds_own_total(s.melds@[p]@) + s.discards@[p]@.len()
}

/// All tiles visibly in play, the pending draw included.
pub open spec fn spec_visible(s: State) -> int {
    player_visible(s, 0) + player_visible(s, 1) + player_visible(s, 2) + player_visible(s, 3) + (
    if s.core.draw is Some {
        1int
    } else {
        0int
    })
}

/// Conservation: everything visibly in play came off the wall, so the
/// remaining wall plus the dead wall make up the rest of the 136 tiles.
pub open spec fn spec_conserved(s: State) -> bool {
    spec_visible(s) == s.core.num_drawn_head + s.core.num_drawn_tail
}

/// Total number of melds on the table.
pub open spec fn melds_len_total(s: State) -> int {
    s.melds@[0]@.len() as int + s.melds@[1]@.len() as int + s.melds@[2]@.len() as int
        + s.melds@[3]@.len() as int
}

/// The bookkeeping bounds an evolving round keeps.
pub open spec fn state_bounds(s: State) -> bool {
    &&& 52 <= s.core.num_drawn_head <= 122
    &&& s.core.num_drawn_tail <= 8
    &&& s.core.num_drawn_head + s.core.num_drawn_tail <= 122
    &&& forall|p: int| 0 <= p < 4 ==> (#[trigger] s.melds@[p]@).len() <= 4
    &&& s.core.seq <= s.core.num_drawn_head + s.core.num_drawn_tail + melds_len_total(s)
    &&& s.closed_hands@.len() == 4
    &&& s.melds@.len() == 4
    &&& s.discards@.len() == 4
    &&& s.riichi_flags@.len() == 4
    &&& s.furiten@.len() == 4
}

// ---------------------------------------------------------------------------
// The wait cache
// ---------------------------------------------------------------------------
/// Is some reading of `ws` waiting on kind `e`?
pub open spec fn in_regular_waits(ws: Seq<RegularWait>, e: int) -> bool {
    exists|i: int| 0 <= i < ws.len() && (#[trigger] ws[i]).waiting_tile@ == e
}

/// Does the irregular reading wait on kind `e`?
pub open spec fn in_irregular_wait(irr: Option<IrregularWait>, e: int) -> bool {
    match irr {
        Some(IrregularWait::SevenPairs(t)) => t@ == e,
        Some(IrregularWait::ThirteenOrphans(t)) => t@ == e,
        Some(IrregularWait::ThirteenOrphansAll) => is_orphan_slot(e),
        None => false,
    }
}

/// Does the player's hand (read through its cached decompositions) wait on
/// kind `e`?
pub open spec fn in_wait_set(ws: Seq<RegularWait>, irr: Option<IrregularWait>, e: int) -> bool {
    in_regular_waits(ws, e) || in_irregular_wait(irr, e)
}

/// Lists the distinct normal kinds the hand waits on, regular and
/// irregular readings combined.
fn waiting_tiles_of(ws: &Vec<RegularWait>, irr: &Option<IrregularWait>) -> (r: Vec<Tile>)
    requires
        forall|i: int| 0 <= i < ws@.len() ==> (#[trigger] ws@[i]).wf(),
    ensures
        forall|i: int| 0 <= i < r@.len() ==> (#[trigger] r@[i]).wf() && r@[i]@ < 34,
        forall|e: int|
            #![trigger in_wait_set(ws@, *irr, e)]
            0 <= e < 34 ==> (in_wait_set(ws@, *irr, e) <==> exists|i: int|
                0 <= i < r@.len() && (#[trigger] r@[i])@ == e),
{
    let mut out: Vec<Tile> = Vec::new();
    let mut e: usize = 0;
    while e < 34
        invariant
            e <= 34,
            forall|i: int| 0 <= i < ws@.len() ==> (#[trigger] ws@[i]).wf(),
            forall|i: int| 0 <= i < out@.len() ==> (#[trigger] out@[i]).wf() && out@[i]@ < e as int,
            forall|x: int| 0 <= x < e ==> (in_wait_set(ws@, *irr, x) <==> exists|i: int|
                0 <= i < out@.len() && (#[trigger] out@[i])@ == x),
        decreases 34 - e,
    {
        let t = Tile::from_normal_encoding(e as u8).unwrap();
        let mut found = false;
        let mut i: usize = 0;
        while i < ws.len()
            invariant
                i <= ws@.len(),
                e < 34,
                t@ == e as int,
                found ==> exists|k: int|
                    0 <= k < i && (#[trigger] ws@[k]).waiting_tile@ == e as int,
                !found ==> forall|k: int|
                    0 <= k < i ==> (#[trigger] ws@[k]).waiting_tile@ != e as int,
            decreases ws@.len() - i,
        {
            if ws[i].waiting_tile.encoding() == e as u8 {
                found = true;
                proof {
                    assert(ws@[i as int].waiting_tile@ == e as int);
                }
            }
            i += 1;
        }
        proof {
            assert(found == in_regular_waits(ws@, e as int));
        }
        let irr_hit = match irr {
            Some(IrregularWait::SevenPairs(w)) => w.encoding() == e as u8,
            Some(IrregularWait::ThirteenOrphans(w)) => w.encoding() == e as u8,
            Some(IrregularWait::ThirteenOrphansAll) => t.is_terminal_or_honor(),
            None => false,
        };
        let ghost out0 = out@;
        if found || irr_hit {
            out.push(t);
        }
        proof {
            assert forall|x: int| 0 <= x < e + 1 implies (in_wait_set(ws@, *irr, x)
                <==> exists|i2: int| 0 <= i2 < out@.len() && (#[trigger] out@[i2])@ == x) by {
                if x < e as int {
                    if in_wait_set(ws@, *irr, x) {
                        let wi = choose|i2: int| 0 <= i2 < out0.len() && (#[trigger] out0[i2])@
                            == x;
                        assert(out@[wi]@ == x);
                    }
                } else {
                    if found || irr_hit {
                        assert(out@[out@.len() - 1]@ == x);
                    }
                }
            }
        }
        e += 1;
    }
    out
}

/// Per-player analysis computed from the closed hands: the regular
/// readings, the irregular reading, and the combined waiting-tile sets.
pub struct EngineCache {
    /// All regular readings of each closed hand.
    pub waits: [Vec<RegularWait>; 4],
    /// The irregular reading of each closed hand, if any.
    pub irregular: [Option<IrregularWait>; 4],
    /// The distinct waiting kinds of each closed hand.
    pub waiting_tiles: [Vec<Tile>; 4],
    /// The meld each registered meld reaction would form.
    pub reaction_melds: [Option<Meld>; 4],
}

/// The cache rows agree with the decomposition of each closed hand.
pub open spec fn cache_wf(c: EngineCache, s: State) -> bool {
    &&& c.waits@.len() == 4 && c.irregular@.len() == 4 && c.waiting_tiles@.len() == 4
        && c.reaction_melds@.len() == 4
    &&& forall|p: int, i: int|
        0 <= p < 4 && 0 <= i < c.waits@[p]@.len() ==> (#[trigger] c.waits@[p]@[i]).wf()
    &&& forall|p: int, i: int|
        0 <= p < 4 && 0 <= i < c.waiting_tiles@[p]@.len() ==> (
        #[trigger] c.waiting_tiles@[p]@[i]).wf() && c.waiting_tiles@[p]@[i]@ < 34
    &&& forall|p: int, e: int|
        0 <= p < 4 && 0 <= e < 34 ==> (#[trigger] in_wait_set(c.waits@[p]@, c.irregular@[p], e)
            <==> exists|i: int|
            0 <= i < c.waiting_tiles@[p]@.len() && (#[trigger] c.waiting_tiles@[p]@[i])@ == e)
    &&& forall|p: int|
        0 <= p < 4 ==> ((#[trigger] c.reaction_melds@[p]) matches Some(m) ==> m.wf())
}

/// One player's wait analysis: the regular readings, the irregular
/// reading, and the combined waiting-tile set.
pub struct HandAnalysis {
    /// All regular readings of the closed hand.
    pub waits: Vec<RegularWait>,
    /// The irregular reading, if any.
    pub irregular: Option<IrregularWait>,
    /// The distinct waiting kinds, both kinds of reading combined.
    pub tiles: Vec<Tile>,
}

impl HandAnalysis {
    /// The analysis is internally consistent and well-formed.
    pub open spec fn wf(self) -> bool {
        &&& forall|i: int| 0 <= i < self.waits@.len() ==> (#[trigger] self.waits@[i]).wf()
        &&& forall|i: int|
            0 <= i < self.tiles@.len() ==> (#[trigger] self.tiles@[i]).wf() && self.tiles@[i]@ < 34
        &&& forall|e: int|
            #![trigger in_wait_set(self.waits@, self.irregular, e)]
            0 <= e < 34 ==> (in_wait_set(self.waits@, self.irregular, e) <==> exists|i: int|
                0 <= i < self.tiles@.len() && (#[trigger] self.tiles@[i])@ == e)
    }
}

/// Computes one player's wait analysis from their closed hand.
fn analyze_hand(hand: &TileSet37) -> (r: HandAnalysis)
    requires
        hand.wf(),
    ensures
        r.wf(),
{
    let h34 = TileSet34::from_full(hand);
    let waits = decompose(&h34);
    let irregular = detect_irregular_wait(&h34);
    let tiles = waiting_tiles_of(&waits, &irregular);
    proof {
        assert(forall|i: int| 0 <= i < waits@.len() ==> (#[trigger] waits@[i]).wf());
        assert(forall|i: int|
            0 <= i < tiles@.len() ==> (#[trigger] tiles@[i]).wf() && tiles@[i]@ < 34);
        assert(forall|e: int|
            #![trigger in_wait_set(waits@, irregular, e)]
            0 <= e < 34 ==> (in_wait_set(waits@, irregular, e) <==> exists|i: int|
                0 <= i < tiles@.len() && (#[trigger] tiles@[i])@ == e));
    }
    let result = HandAnalysis { waits, irregular, tiles };
    proof {
        assert(result.waits == waits);
        assert(result.irregular == irregular);
        assert(result.tiles == tiles);
        assert(result.wf());
    }
    result
}

// ---------------------------------------------------------------------------
// The engine
// ---------------------------------------------------------------------------
/// Drives one round: validates actions and reactions against the current
/// state, resolves them, and evolves the state turn by turn.
pub struct Engine {
    begin: RoundBegin,
    state: State,
    action: Option<Action>,
    reactions: [Option<Reaction>; 4],
    end: Option<RoundEnd>,
    analysis: [HandAnalysis; 4],
    reaction_melds: [Option<Meld>; 4],
}

impl Engine {
    /// The current state (specification view).
    pub closed spec fn spec_state(&self) -> State {
        self.state
    }

    /// The round parameters (specification view).
    pub closed spec fn spec_begin(&self) -> RoundBegin {
        self.begin
    }

    /// The registered action (specification view).
    pub closed spec fn spec_action(&self) -> Option<Action> {
        self.action
    }

    /// The registered reactions (specification view).
    pub closed spec fn spec_reactions(&self) -> Seq<Option<Reaction>> {
        self.reactions@
    }

    /// The end-of-round conclusions (specification view).
    pub closed spec fn spec_end(&self) -> Option<RoundEnd> {
        self.end
    }

    /// The cached wait analysis of player `p` (specification view).
    pub closed spec fn spec_analysis(&self, p: int) -> HandAnalysis {
        self.analysis@[p]
    }

    /// Internal consistency: a valid begun round with conserved tiles and
    /// wait caches matching the closed hands.
    pub closed spec fn wf(&self) -> bool {
        &&& self.begin.wf()
        &&& self.state.wf()
        &&& state_bounds(self.state)
        &&& spec_conserved(self.state)
        &&& self.analysis@.len() == 4
        &&& forall|p: int| 0 <= p < 4 ==> (#[trigger] self.analysis@[p]).wf()
        &&& self.reaction_melds@.len() == 4
        &&& forall|p: int|
            0 <= p < 4 ==> ((#[trigger] self.reaction_melds@[p]) matches Some(m) ==> m.wf())
        &&& self.action matches Some(a) ==> a.wf()
    }

    /// Creates an engine with an empty, not-yet-begun round.
    pub fn new() -> (r: Engine)
        ensures
            r.wf(),
            r.spec_state().core.seq == 0,
            r.spec_action() is None,
            r.spec_end() is None,
    {
        let wall = crate::wall::make_sorted_wall([1, 1, 1]);
        let begin = RoundBegin {
            ruleset: crate::model::Ruleset::standard(),
            round_id: crate::model::RoundId { kyoku: 0, honba: 0 },
            wall,
            pot: 0,
            points: [25000, 25000, 25000, 25000],
        };
        Engine::started(begin)
    }

    /// The current state.
    pub fn state(&self) -> (r: &State)
        ensures
            *r == self.spec_state(),
    {
        &self.state
    }

    /// The end-of-round conclusions, if the round has ended.
    pub fn end(&self) -> (r: &Option<RoundEnd>)
        ensures
            *r == self.spec_end(),
    {
        &self.end
    }

    /// Builds an engine directly at the start of the given round.
    fn started(begin: RoundBegin) -> (r: Engine)
        requires
            begin.wf(),
            forall|e: int| 0 <= e < 34 ==> #[trigger] count_norm(begin.wall@, e) == 4,
        ensures
            r.wf(),
            r.spec_state().core.seq == 0,
            r.spec_state().core.actor@ == begin.round_id.kyoku as int % 4,
            r.spec_state().core.num_drawn_head == 53,
            r.spec_state().core.num_drawn_tail == 0,
            r.spec_action() is None,
            r.spec_end() is None,
            r.spec_begin() == begin,
            forall|p: int| 0 <= p < 4 ==> (#[trigger] r.spec_state().discards@[p]@).len() == 0,
            forall|p: int| 0 <= p < 4 ==> (#[trigger] r.spec_state().melds@[p]@).len() == 0,
            r.spec_state().core.draw == Some(begin.wall@[52]),
            forall|p: int, e: int|
                0 <= p < 4 && 0 <= e < 37 ==> #[trigger] r.spec_state().closed_hands@[p]@[e]
                    == crate::tile_set::count_enc(begin.wall@.subrange(13 * p, 13 * p + 13), e),
    {
        let h0 = deal_hand(&begin, 0);
        let h1 = deal_hand(&begin, 1);
        let h2 = deal_hand(&begin, 2);
        let h3 = deal_hand(&begin, 3);
        let draw = begin.wall[52];
        let state = State {
            core: StateCore {
                seq: 0,
                actor: begin.round_id.button(),
                num_drawn_head: 53,
                num_drawn_tail: 0,
                draw: Some(draw),
            },
            closed_hands: [h0, h1, h2, h3],
            melds: [Vec::new(), Vec::new(), Vec::new(), Vec::new()],
            discards: [Vec::new(), Vec::new(), Vec::new(), Vec::new()],
            riichi_flags: [
                RiichiFlags::none(),
                RiichiFlags::none(),
                RiichiFlags::none(),
                RiichiFlags::none(),
            ],
            furiten: [
                FuritenFlags::none(),
                FuritenFlags::none(),
                FuritenFlags::none(),
                FuritenFlags::none(),
            ],
            incoming_meld: None,
        };
        let a0 = analyze_hand(&h0);
        let a1 = analyze_hand(&h1);
        let a2 = analyze_hand(&h2);
        let a3 = analyze_hand(&h3);
        let r = Engine {
            begin,
            state,
            action: None,
            reactions: [None, None, None, None],
            end: None,
            analysis: [a0, a1, a2, a3],
            reaction_melds: [None, None, None, None],
        };
        proof {
            assert(r.state == state);
            assert(state.closed_hands@[0] == h0 && state.closed_hands@[1] == h1
                && state.closed_hands@[2] == h2 && state.closed_hands@[3] == h3);
            assert(state.melds@[0]@.len() == 0 && state.melds@[1]@.len() == 0
                && state.melds@[2]@.len() == 0 && state.melds@[3]@.len() == 0);
            assert(state.discards@[0]@.len() == 0 && state.discards@[1]@.len() == 0
                && state.discards@[2]@.len() == 0 && state.discards@[3]@.len() == 0);
            assert(spec_visible(state) == 53);
            assert(r.analysis@[0] == a0 && r.analysis@[1] == a1 && r.analysis@[2] == a2
                && r.analysis@[3] == a3);
        }
        r
    }

    /// Sets the engine up for the given round, dealing 13 tiles to each
    /// player from the wall and drawing the dealer's first tile. Forgets
    /// any pending action or reactions.
    pub fn begin_round(&mut self, begin: RoundBegin)
        requires
            begin.wf(),
            forall|e: int| 0 <= e < 34 ==> #[trigger] count_norm(begin.wall@, e) == 4,
        ensures
            final(self).wf(),
            final(self).spec_state().core.seq == 0,
            final(self).spec_state().core.actor@ == begin.round_id.kyoku as int % 4,
            final(self).spec_action() is None,
            final(self).spec_end() is None,
            final(self).spec_begin() == begin,
            spec_conserved(final(self).spec_state()),
            // the deal: thirteen wall tiles to each player in order, and
            // the dealer's first draw off the top of the live wall
            final(self).spec_state().core.draw == Some(begin.wall@[52]),
            forall|p: int, e: int|
                0 <= p < 4 && 0 <= e < 37 ==> #[trigger] final(self).spec_state().closed_hands@[p]@[e]
                    == crate::tile_set::count_enc(begin.wall@.subrange(13 * p, 13 * p + 13), e),
    {
        *self = Engine::started(begin);
    }
}

// ---------------------------------------------------------------------------
// Action validation
// ---------------------------------------------------------------------------
/// Ordinary draws still available.
pub open spec fn draws_left(s: State) -> int {
    122 - s.core.num_drawn_head - s.core.num_drawn_tail
}

/// Is the tile available to the actor: in the closed hand, or the draw?
pub open spec fn in_hand_or_draw(s: State, p: int, t: Tile) -> bool {
    s.closed_hands@[p]@[t@] >= 1 || s.core.draw == Some(t)
}

/// Is the hand closed: no meld, or closed kans only?
pub open spec fn is_closed_melds(ms: Seq<Meld>) -> bool {
    forall|i: int| 0 <= i < ms.len() ==> (#[trigger] ms[i]) matches Meld::Ankan(_)
}

/// Does the meld list hold a pon of normal kind `n`?
pub open spec fn has_pon_of(ms: Seq<Meld>, n: int) -> bool {
    exists|i: int|
        0 <= i < ms.len() && ((#[trigger] ms[i]) matches Meld::Pon(p) && spec_normal(p.called@)
            == n)
}

/// Combined count of normal kind `n` in a 37-way histogram, reds included.
pub open spec fn held_of_kind(h: Seq<u8>, n: int) -> int {
    if crate::tile::spec_to_red(n) == n {
        h[n] as int
    } else {
        h[n] + h[crate::tile::spec_to_red(n)]
    }
}

/// Number of distinct terminal/honor kinds held in the first `n` slots.
pub open spec fn orphan_kinds_held(h: Seq<u8>, n: int) -> int
    decreases n,
{
    if n <= 0 {
        0
    } else {
        orphan_kinds_held(h, n - 1) + if is_orphan_slot(n - 1) && h[n - 1] >= 1 {
            1int
        } else {
            0int
        }
    }
}

/// Is the round still in its uninterrupted first go-around for the actor:
/// nobody has melded and the actor has not discarded?
pub open spec fn init_abortable(s: State, p: int) -> bool {
    melds_len_total(s) == 0 && s.discards@[p]@.len() == 0
}

/// The closed hand plus the pending draw, as one histogram (counts may
/// reach five; used for kan availability only).
fn hand_with_draw(hand: &TileSet37, draw: Option<Tile>) -> (r: TileSet37)
    requires
        hand@.len() == 37,
        draw matches Some(t) ==> t.wf(),
        forall|e: int| 0 <= e < 37 ==> hand@[e] <= 4,
    ensures
        r@.len() == 37,
        forall|e: int|
            0 <= e < 37 ==> #[trigger] r@[e] == hand@[e] + (if draw matches Some(t) && t@ == e {
                1int
            } else {
                0int
            }),
{
    let mut r = *hand;
    if let Some(t) = draw {
        let c = r.get(t);
        r.set(t, c + 1);
    }
    r
}

/// Counts the distinct terminal/honor kinds of a histogram.
fn count_orphan_kinds(h: &TileSet37) -> (r: u8)
    requires
        h@.len() == 37,
    ensures
        r as int == orphan_kinds_held(h@, 34),
{
    let mut n: u8 = 0;
    let mut e: usize = 0;
    while e < 34
        invariant
            e <= 34,
            h@.len() == 37,
            n as int == orphan_kinds_held(h@, e as int),
            n <= e,
        decreases 34 - e,
    {
        let t = Tile::from_normal_encoding(e as u8).unwrap();
        if t.is_terminal_or_honor() && h.get(t) >= 1 {
            n += 1;
        }
        e += 1;
    }
    n
}

/// Counts how many of normal kind `n` the histogram holds, reds included.
fn count_held_of_kind(h: &TileSet37, t: Tile) -> (r: u8)
    requires
        h@.len() == 37,
        t.wf(),
        forall|e: int| 0 <= e < 37 ==> h@[e] <= 5,
    ensures
        r as int == held_of_kind(h@, spec_normal(t@)),
{
    let normal = t.to_normal();
    let red = normal.to_red();
    if red.encoding() != normal.encoding() {
        h.get(normal) + h.get(red)
    } else {
        h.get(normal)
    }
}

impl Engine {
    /// Validates the action against the current state and records it for
    /// `step`; never touches the visible state. An action registered over a
    /// previous one replaces it; a rejected action leaves none registered.
    pub fn register_action(&mut self, action: Action) -> (r: Result<(), ActionError>)
        requires
            old(self).wf(),
            action.wf(),
        ensures
            final(self).wf(),
            // registering never mutates the visible state
            final(self).spec_state() == old(self).spec_state(),
            final(self).spec_begin() == old(self).spec_begin(),
            final(self).spec_end() == old(self).spec_end(),
            r is Ok ==> final(self).spec_action() == Some(action),
            r is Err ==> final(self).spec_action() is None,
            // a discard without riichi succeeds exactly when the tile is at hand
            (action matches Action::Discard(d) && !d.declares_riichi) ==> ((r is Ok)
                <==> in_hand_or_draw(
                old(self).spec_state(),
                old(self).spec_state().core.actor@,
                action->Discard_0.tile,
            )),
            // nine-kinds abort succeeds exactly on an eligible first turn
            action == Action::AbortNineKinds ==> ((r is Ok) <==> (init_abortable(
                old(self).spec_state(),
                old(self).spec_state().core.actor@,
            ) && orphan_kinds_held(
                hand_plus_draw_view(old(self).spec_state()),
                34,
            ) >= 9)),
            // a riichi declaration passes its closedness, deposit, draws
            // and tile gates exactly; what remains is the waiting check
            action matches Action::Discard(d) && d.declares_riichi ==> ((r is Ok || r == Err::<
                (),
                ActionError,
            >(ActionError::NoWaitAfterDiscard)) <==> (in_hand_or_draw(
                old(self).spec_state(),
                old(self).spec_state().core.actor@,
                action->Discard_0.tile,
            ) && !old(self).spec_state().riichi_flags@[old(
                self,
            ).spec_state().core.actor@].is_active && is_closed_melds(
                old(self).spec_state().melds@[old(self).spec_state().core.actor@]@,
            ) && old(self).spec_begin().points@[old(self).spec_state().core.actor@] >= 1000
                && draws_left(old(self).spec_state()) >= 4)),
            // a closed kan needs all four at hand and a replacement tile;
            // what remains is the riichi wait-preservation check
            action matches Action::Ankan(t) ==> ((r is Ok || r == Err::<(), ActionError>(
                ActionError::RiichiForbidsKanChangingWait,
            )) <==> (held_of_kind(
                hand_plus_draw_view(old(self).spec_state()),
                spec_normal(action->Ankan_0@),
            ) == 4 && draws_left(old(self).spec_state()) >= 1 && old(
                self,
            ).spec_state().core.num_drawn_tail < 8)),
            // a kan promotion succeeds exactly on a held tile, a matching
            // pon, and an available replacement tile
            action matches Action::Kakan(t) ==> ((r is Ok) <==> (hand_plus_draw_view(
                old(self).spec_state(),
            )[action->Kakan_0@] >= 1 && has_pon_of(
                old(self).spec_state().melds@[old(self).spec_state().core.actor@]@,
                spec_normal(action->Kakan_0@),
            ) && draws_left(old(self).spec_state()) >= 1 && old(
                self,
            ).spec_state().core.num_drawn_tail < 8)),
            // a self-draw win must name the drawn tile, and only stands on
            // a cached waiting kind
            action matches Action::TsumoAgari(t) ==> (old(self).spec_state().core.draw != Some(t)
                ==> r == Err::<(), ActionError>(ActionError::TileNotInHand)),
            action matches Action::TsumoAgari(t) ==> ((r is Ok) ==> in_wait_set(
                old(self).spec_analysis(old(self).spec_state().core.actor@).waits@,
                old(self).spec_analysis(old(self).spec_state().core.actor@).irregular,
                spec_normal(action->TsumoAgari_0@),
            )),
    {
        self.action = None;
        self.reactions = [None, None, None, None];
        self.reaction_melds = [None, None, None, None];
        let actor = self.state.core.actor;
        let p = actor.to_usize();
        let hand = self.state.closed_hands[p];
        let combined = hand_with_draw(&hand, self.state.core.draw);
        proof {
            assert(combined@ =~= hand_plus_draw_view(self.state));
        }
        let result: Result<(), ActionError> = match action {
            Action::Discard(d) => self.check_discard(d, &hand, &combined),
            Action::Ankan(t) => self.check_ankan(t, &combined),
            Action::Kakan(t) => self.check_kakan(t, &combined),
            Action::TsumoAgari(t) => self.check_tsumo(t),
            Action::AbortNineKinds => {
                if self.melds_empty() && self.state.discards[p].len() == 0 && count_orphan_kinds(
                    &combined,
                ) >= 9 {
                    Ok(())
                } else {
                    Err(ActionError::NineKindsNotEligible)
                }
            },
        };
        if result.is_ok() {
            self.action = Some(action);
        }
        result
    }

    /// Are all four meld lists empty?
    fn melds_empty(&self) -> (r: bool)
        requires
            self.wf(),
        ensures
            r == (melds_len_total(self.spec_state()) == 0),
    {
        self.state.melds[0].len() == 0 && self.state.melds[1].len() == 0
            && self.state.melds[2].len() == 0 && self.state.melds[3].len() == 0
    }

    /// Validates a discard (and a riichi declaration riding on it).
    fn check_discard(&self, d: Discard, hand: &TileSet37, combined: &TileSet37) -> (r: Result<
        (),
        ActionError,
    >)
        requires
            self.wf(),
            d.wf(),
            *hand == self.spec_state().closed_hands@[self.spec_state().core.actor@],
            hand.wf(),
        ensures
            !d.declares_riichi ==> ((r is Ok) <==> in_hand_or_draw(
                self.spec_state(),
                self.spec_state().core.actor@,
                d.tile,
            )),
            d.declares_riichi ==> ((r is Ok || r == Err::<(), ActionError>(
                ActionError::NoWaitAfterDiscard,
            )) <==> (in_hand_or_draw(self.spec_state(), self.spec_state().core.actor@, d.tile)
                && !self.spec_state().riichi_flags@[self.spec_state().core.actor@].is_active
                && is_closed_melds(self.spec_state().melds@[self.spec_state().core.actor@]@)
                && self.spec_begin().points@[self.spec_state().core.actor@] >= 1000 && draws_left(
                self.spec_state(),
            ) >= 4)),
    {
        let p = self.state.core.actor.to_usize();
        let in_hand = hand.get(d.tile) >= 1 || self.draw_is(d.tile);
        if !in_hand {
            return Err(ActionError::TileNotInHand);
        }
        if d.declares_riichi {
            if self.state.riichi_flags[p].is_active {
                return Err(ActionError::NotClosedForRiichi);
            }
            let mut closed = true;
            let ms = &self.state.melds[p];
            let mut i: usize = 0;
            while i < ms.len()
                invariant
                    i <= ms@.len(),
                    closed == forall|k: int|
                        0 <= k < i ==> (#[trigger] ms@[k]) matches Meld::Ankan(_),
                decreases ms@.len() - i,
            {
                if !ms[i].is_closed() {
                    closed = false;
                }
                i += 1;
            }
            if !closed {
                return Err(ActionError::NotClosedForRiichi);
            }
            if self.begin.points[p] < 1000 {
                return Err(ActionError::InsufficientPointsForRiichi);
            }
            if self.draws_remaining() < 4 {
                return Err(ActionError::InsufficientDrawsForRiichi);
            }
            // the hand after the discard must still be waiting
            let next_hand = self.hand_after_discard(hand, d.tile);
            let analysis = analyze_hand(&next_hand);
            if analysis.tiles.len() == 0 {
                return Err(ActionError::NoWaitAfterDiscard);
            }
        }
        Ok(())
    }

    /// Does the pending draw equal `t`?
    fn draw_is(&self, t: Tile) -> (r: bool)
        requires
            self.wf(),
        ensures
            r == (self.spec_state().core.draw == Some(t)),
    {
        match self.state.core.draw {
            Some(dt) => {
                if dt.encoding() == t.encoding() {
                    proof {
                        Tile::lemma_eq(dt, t);
                    }
                    true
                } else {
                    false
                }
            },
            None => false,
        }
    }

    /// Ordinary draws still available.
    fn draws_remaining(&self) -> (r: u8)
        requires
            self.wf(),
        ensures
            r as int == draws_left(self.spec_state()),
    {
        122 - self.state.core.num_drawn_head - self.state.core.num_drawn_tail
    }

    /// The actor's hand after discarding `t` and merging the pending draw.
    fn hand_after_discard(&self, hand: &TileSet37, t: Tile) -> (r: TileSet37)
        requires
            self.wf(),
            hand.wf(),
            t.wf(),
            in_hand_or_draw(self.spec_state(), self.spec_state().core.actor@, t) || hand@[t@] >= 1,
            *hand == self.spec_state().closed_hands@[self.spec_state().core.actor@],
        ensures
            r.wf(),
    {
        let mut h = *hand;
        match self.state.core.draw {
            Some(dt) => {
                if dt.encoding() == t.encoding() {
                    // discarding the draw itself: the hand is unchanged
                } else if h.get(t) >= 1 {
                    let c = h.get(t);
                    h.set(t, c - 1);
                    if count_held_of_kind(&h, dt) < 4 {
                        let cd = h.get(dt);
                        h.set(dt, cd + 1);
                    }
                } else {
                    // the tile is only the draw; nothing to move
                }
            },
            None => {
                if h.get(t) >= 1 {
                    let c = h.get(t);
                    h.set(t, c - 1);
                }
            },
        }
        h
    }

    /// Validates a closed-kan declaration.
    fn check_ankan(&self, t: Tile, combined: &TileSet37) -> (r: Result<(), ActionError>)
        requires
            self.wf(),
            t.wf(),
            combined@.len() == 37,
            forall|e: int| 0 <= e < 37 ==> combined@[e] <= 5,
        ensures
            (r is Ok || r == Err::<(), ActionError>(ActionError::RiichiForbidsKanChangingWait))
                <==> (held_of_kind(combined@, spec_normal(t@)) == 4 && draws_left(
                self.spec_state(),
            ) >= 1 && self.spec_state().core.num_drawn_tail < 8),
    {
        let p = self.state.core.actor.to_usize();
        if count_held_of_kind(combined, t) != 4 {
            return Err(ActionError::KanNotAvailable);
        }
        if self.draws_remaining() < 1 || self.state.core.num_drawn_tail >= 8 {
            return Err(ActionError::WallEmpty);
        }
        if self.state.riichi_flags[p].is_active {
            // under riichi the kan must not change the waiting tiles
            let hand = self.state.closed_hands[p];
            let before = &self.analysis[p];
            let mut after_hand = hand;
            let normal = t.to_normal();
            after_hand.set(normal, 0);
            after_hand.set(normal.to_red(), 0);
            if let Some(dt) = self.state.core.draw {
                if dt.normal_encoding() != normal.encoding() && count_held_of_kind(&after_hand, dt)
                    < 4 {
                    let cd = after_hand.get(dt);
                    after_hand.set(dt, cd + 1);
                }
            }
            let after = analyze_hand(&after_hand);
            if !same_tile_sets(&before.tiles, &after.tiles) {
                return Err(ActionError::RiichiForbidsKanChangingWait);
            }
        }
        Ok(())
    }

    /// Validates a kan promotion.
    fn check_kakan(&self, t: Tile, combined: &TileSet37) -> (r: Result<(), ActionError>)
        requires
            self.wf(),
            t.wf(),
            combined@.len() == 37,
        ensures
            (r is Ok) <==> (combined@[t@] >= 1 && has_pon_of(
                self.spec_state().melds@[self.spec_state().core.actor@]@,
                spec_normal(t@),
            ) && draws_left(self.spec_state()) >= 1 && self.spec_state().core.num_drawn_tail < 8),
    {
        let p = self.state.core.actor.to_usize();
        if combined.get(t) < 1 {
            return Err(ActionError::KanNotAvailable);
        }
        let ms = &self.state.melds[p];
        let mut found = false;
        let mut i: usize = 0;
        while i < ms.len()
            invariant
                i <= ms@.len(),
                t.wf(),
                found ==> has_pon_of(ms@, spec_normal(t@)),
                !found ==> forall|k: int|
                    0 <= k < i ==> !((#[trigger] ms@[k]) matches Meld::Pon(q) && spec_normal(
                        q.called@,
                    ) == spec_normal(t@)),
            decreases ms@.len() - i,
        {
            match ms[i] {
                Meld::Pon(q) => {
                    if q.called.normal_encoding() == t.normal_encoding() {
                        found = true;
                        proof {
                            assert(ms@[i as int] matches Meld::Pon(q2) && spec_normal(q2.called@)
                                == spec_normal(t@));
                        }
                    }
                },
                _ => {},
            }
            i += 1;
        }
        if !found {
            proof {
                assert(!has_pon_of(ms@, spec_normal(t@)));
            }
            return Err(ActionError::KanNotAvailable);
        }
        if self.draws_remaining() < 1 || self.state.core.num_drawn_tail >= 8 {
            return Err(ActionError::WallEmpty);
        }
        Ok(())
    }

    /// Validates a self-draw win declaration.
    fn check_tsumo(&self, t: Tile) -> (r: Result<(), ActionError>)
        requires
            self.wf(),
            t.wf(),
        ensures
            self.spec_state().core.draw != Some(t) ==> r == Err::<(), ActionError>(
                ActionError::TileNotInHand,
            ),
            r is Ok ==> in_wait_set(
                self.spec_analysis(self.spec_state().core.actor@).waits@,
                self.spec_analysis(self.spec_state().core.actor@).irregular,
                spec_normal(t@),
            ),
    {
        let p = self.state.core.actor.to_usize();
        if !self.draw_is(t) {
            return Err(ActionError::TileNotInHand);
        }
        let analysis = &self.analysis[p];
        let normal = t.to_normal();
        let mut in_wait = false;
        let mut i: usize = 0;
        while i < analysis.tiles.len()
            invariant
                i <= analysis.tiles@.len(),
                normal.wf(),
                normal@ == spec_normal(t@),
                self.wf(),
                0 <= p < 4,
                analysis == &self.spec_analysis(p as int),
                in_wait ==> exists|k: int|
                    0 <= k < i && (#[trigger] analysis.tiles@[k])@ == normal@,
            decreases analysis.tiles@.len() - i,
        {
            if analysis.tiles[i].encoding() == normal.encoding() {
                in_wait = true;
                proof {
                    assert(analysis.tiles@[i as int]@ == normal@);
                }
            }
            i += 1;
        }
        if !in_wait {
            return Err(ActionError::TsumoWithoutYaku);
        }
        proof {
            assert(self.spec_analysis(p as int).wf());
            assert(0 <= normal@ < 34);
            assert(in_wait_set(
                self.spec_analysis(p as int).waits@,
                self.spec_analysis(p as int).irregular,
                normal@,
            ));
        }
        Ok(())
    }
}

/// The hand of the actor with the pending draw merged, as a histogram view.
pub open spec fn hand_plus_draw_view(s: State) -> Seq<u8> {
    let h = s.closed_hands@[s.core.actor@]@;
    match s.core.draw {
        Some(t) => h.update(t@, (h[t@] + 1) as u8),
        None => h,
    }
}

/// Do two tile listings name the same kinds (order-sensitive equality of
/// encodings -- both sides are produced sorted)?
fn same_tile_sets(a: &Vec<Tile>, b: &Vec<Tile>) -> (r: bool)
    ensures
        r == (a@.map_values(|t: Tile| t@) =~= b@.map_values(|t: Tile| t@)),
{
    if a.len() != b.len() {
        proof {
            assert(a@.map_values(|t: Tile| t@).len() != b@.map_values(|t: Tile| t@).len());
        }
        return false;
    }
    let mut i: usize = 0;
    while i < a.len()
        invariant
            i <= a@.len(),
            a@.len() == b@.len(),
            forall|k: int| 0 <= k < i ==> (#[trigger] a@[k])@ == b@[k]@,
        decreases a@.len() - i,
    {
        if a[i].encoding() != b[i].encoding() {
            proof {
                assert(a@.map_values(|t: Tile| t@)[i as int] != b@.map_values(|t: Tile| t@)[
                    i as int]);
            }
            return false;
        }
        i += 1;
    }
    proof {
        assert(a@.map_values(|t: Tile| t@) =~= b@.map_values(|t: Tile| t@));
    }
    true
}

// ---------------------------------------------------------------------------
// Scoring
// ---------------------------------------------------------------------------
/// Rounds up to the next hundred.
pub open spec fn roundup100(x: int) -> int {
    ((x + 99) / 100) * 100
}

/// Base points: `fu x 2^(2+han)`, capped at the mangan ladder
/// (2000/3000/4000/6000/8000 for 5+, 6+, 8+, 11+ and 13+ han; any base
/// over 2000 is also a mangan).
pub open spec fn spec_base_points(fu: int, han: int) -> int {
    if han >= 13 {
        8000
    } else if han >= 11 {
        6000
    } else if han >= 8 {
        4000
    } else if han >= 6 {
        3000
    } else if han >= 5 {
        2000
    } else {
        let b = fu * (if han == 0 {
            4int
        } else if han == 1 {
            8int
        } else if han == 2 {
            16int
        } else if han == 3 {
            32int
        } else {
            64int
        });
        if b > 2000 {
            2000
        } else {
            b
        }
    }
}

/// Computes the capped base points.
fn calc_base_points(fu: u8, han: u32) -> (r: u32)
    ensures
        r as int == spec_base_points(fu as int, han as int),
        r <= 8000,
{
    if han >= 13 {
        8000
    } else if han >= 11 {
        6000
    } else if han >= 8 {
        4000
    } else if han >= 6 {
        3000
    } else if han >= 5 {
        2000
    } else {
        let factor: u32 = if han == 0 {
            4
        } else if han == 1 {
            8
        } else if han == 2 {
            16
        } else if han == 3 {
            32
        } else {
            64
        };
        let b = (fu as u32) * factor;
        if b > 2000 {
            2000
        } else {
            b
        }
    }
}

/// The total a winner collects, honba included (the pot is added by the
/// caller): by ron the single payer covers four (six for a dealer) times
/// the base; by self-draw the dealer pays a double share and the others a
/// single share (all double toward a dealer winner), each payment rounded
/// up to the next hundred.
pub open spec fn spec_points_won(base: int, dealer: bool, kind: AgariKind, honba: int) -> int {
    if kind == AgariKind::Ron {
        roundup100(
            if dealer {
                6 * base
            } else {
                4 * base
            },
        ) + 300 * honba
    } else {
        (if dealer {
            3 * roundup100(2 * base)
        } else {
            roundup100(2 * base) + 2 * roundup100(base)
        }) + 300 * honba
    }
}

/// Computes the winner's collected points.
fn calc_points_won(base: u32, dealer: bool, kind: AgariKind, honba: u8) -> (r: u32)
    requires
        base <= 8000,
    ensures
        r as int == spec_points_won(base as int, dealer, kind, honba as int),
        r <= 48000 + 300 * 255,
{
    let h = 300 * (honba as u32);
    match kind {
        AgariKind::Ron => {
            let pay = if dealer {
                6 * base
            } else {
                4 * base
            };
            ((pay + 99) / 100) * 100 + h
        },
        AgariKind::Tsumo => {
            if dealer {
                3 * (((2 * base + 99) / 100) * 100) + h
            } else {
                ((2 * base + 99) / 100) * 100 + 2 * (((base + 99) / 100) * 100) + h
            }
        },
    }
}

/// The dora successor: the next number of the same suit (nine wraps to
/// one), the next wind (north wraps to east), or the next dragon.
fn dora_next(t: Tile) -> (r: Tile)
    requires
        t.wf(),
    ensures
        r.wf(),
        !crate::tile::spec_is_red(r@),
{
    let n = t.to_normal();
    let e = n.encoding();
    let next: u8 = if e < 27 {
        if e % 9 == 8 {
            e - 8
        } else {
            e + 1
        }
    } else if e < 31 {
        if e == 30 {
            27
        } else {
            e + 1
        }
    } else {
        if e == 33 {
            31
        } else {
            e + 1
        }
    };
    Tile::from_encoding(next).unwrap()
}

/// Adds one tile to a histogram, saturating at the four-of-a-kind cap so
/// the histogram stays valid.
fn add_tile_capped(h: &mut TileSet37, t: Tile)
    requires
        t.wf(),
        old(h).wf(),
    ensures
        final(h).wf(),
{
    if count_held_of_kind(h, t) < 4 {
        let c = h.get(t);
        h.set(t, c + 1);
        proof {
            assert(final(h).wf());
        }
    }
}

/// A fresh copy of a meld listing.
fn copy_melds(v: &Vec<Meld>) -> (r: Vec<Meld>)
    ensures
        r@ == v@,
{
    let mut r: Vec<Meld> = Vec::new();
    let mut i: usize = 0;
    while i < v.len()
        invariant
            i <= v@.len(),
            r@ == v@.take(i as int),
        decreases v@.len() - i,
    {
        let m = v[i];
        proof {
            assert(v@.take(i as int).push(v@[i as int]) =~= v@.take(i + 1));
        }
        r.push(m);
        i += 1;
    }
    proof {
        assert(v@.take(v@.len() as int) =~= v@);
    }
    r
}

impl Engine {
    /// All tiles of a winning hand: the closed hand, every meld tile, and
    /// the winning tile (counts saturate at four of a kind).
    fn build_all_tiles(&self, winner: usize, winning_tile: Tile) -> (r: TileSet37)
        requires
            self.wf(),
            winner < 4,
            winning_tile.wf(),
        ensures
            r.wf(),
    {
        let mut all = self.state.closed_hands[winner];
        let ms = &self.state.melds[winner];
        let mut i: usize = 0;
        while i < ms.len()
            invariant
                i <= ms@.len(),
                all.wf(),
                forall|k: int| 0 <= k < ms@.len() ==> (#[trigger] ms@[k]).wf(),
            decreases ms@.len() - i,
        {
            match ms[i] {
                Meld::Chii(c) => {
                    add_tile_capped(&mut all, c.own0);
                    add_tile_capped(&mut all, c.own1);
                    add_tile_capped(&mut all, c.called);
                },
                Meld::Pon(q) => {
                    add_tile_capped(&mut all, q.own0);
                    add_tile_capped(&mut all, q.own1);
                    add_tile_capped(&mut all, q.called);
                },
                Meld::Kakan(k) => {
                    add_tile_capped(&mut all, k.pon.own0);
                    add_tile_capped(&mut all, k.pon.own1);
                    add_tile_capped(&mut all, k.pon.called);
                    add_tile_capped(&mut all, k.added);
                },
                Meld::Daiminkan(d) => {
                    add_tile_capped(&mut all, d.own0);
                    add_tile_capped(&mut all, d.own1);
                    add_tile_capped(&mut all, d.own2);
                    add_tile_capped(&mut all, d.called);
                },
                Meld::Ankan(a) => {
                    add_tile_capped(&mut all, a.own0);
                    add_tile_capped(&mut all, a.own1);
                    add_tile_capped(&mut all, a.own2);
                    add_tile_capped(&mut all, a.own3);
                },
            }
            i += 1;
        }
        add_tile_capped(&mut all, winning_tile);
        all
    }

    /// Counts the dora of a winning hand: one per matching tile per
    /// revealed indicator, plus one per red five held.
    fn count_dora(&self, all: &TileSet37) -> (r: u8)
        requires
            self.wf(),
            all.wf(),
        ensures
            r <= 80,
    {
        let kans = self.state.core.num_drawn_tail;
        let num_indicators: u8 = 1 + if kans > 4 {
            4
        } else {
            kans
        };
        let mut dora: u8 = 0;
        let mut k: u8 = 0;
        while k < num_indicators
            invariant
                self.wf(),
                all.wf(),
                num_indicators <= 5,
                k <= num_indicators,
                dora <= 12 * k,
            decreases num_indicators - k,
        {
            let idx: usize = 122 + 2 * (k as usize);
            let indicator = self.begin.wall[idx];
            let dt = dora_next(indicator);
            let c = all.get(dt);
            dora += if c > 4 {
                4
            } else {
                c
            };
            k += 1;
        }
        let reds = all.get(Tile::from_encoding(34).unwrap()) + all.get(
            Tile::from_encoding(35).unwrap(),
        ) + all.get(Tile::from_encoding(36).unwrap());
        dora + if reds > 12 {
            12
        } else {
            reds
        }
    }

    /// Scores the best reading of a win for `winner` on `winning_tile`.
    /// `None` exactly when no reading of the hand both matches the winning
    /// tile and carries at least one yaku.
    #[verifier::rlimit(100)]
    #[verifier::spinoff_prover]
    fn score_win(
        &self,
        winner: Player,
        contributor: Player,
        winning_tile: Tile,
        agari_kind: AgariKind,
        action: Action,
    ) -> (r: Option<AgariResult>)
        requires
            self.wf(),
            winner.wf(),
            contributor.wf(),
            winning_tile.wf(),
            action.wf(),
        ensures
            r matches Some(a) ==> a.winner == winner && a.contributor == contributor
                && agari_consistent(a, self.spec_begin(), agari_kind),
    {
        let p = winner.to_usize();
        let all_tiles = self.build_all_tiles(p, winning_tile);
        let melds = copy_melds(&self.state.melds[p]);
        let mut closed = true;
        let mut ci: usize = 0;
        while ci < melds.len()
            invariant
                ci <= melds@.len(),
            decreases melds@.len() - ci,
        {
            if !melds[ci].is_closed() {
                closed = false;
            }
            ci += 1;
        }
        let button = self.begin.round_id.button();
        let num_draws: u8 = self.state.core.num_drawn_head - 52 + self.state.core.num_drawn_tail;
        let input = crate::yaku::AgariInput {
            winner,
            button,
            round_id: self.begin.round_id,
            riichi_flags: self.state.riichi_flags[p],
            melds,
            incoming_meld: self.state.incoming_meld,
            action,
            num_draws,
            is_init_abortable: self.melds_empty() && self.state.discards[p].len() == 0,
        };
        let hand_common = crate::yaku::HandCommon {
            agari_kind,
            all_tiles,
            winning_tile,
            is_closed: closed,
        };
        let normal = winning_tile.to_normal();
        let round_wind = self.begin.round_id.prevailing_wind();
        let seat_wind = self.begin.round_id.self_wind_for_player(winner);
        let dealer = winner.to_u8() == button.to_u8();
        let dora = self.count_dora(&all_tiles);
        let analysis = &self.analysis[p];
        let mut best: Option<AgariResult> = None;
        let mut i: usize = 0;
        while i < analysis.waits.len()
            invariant
                self.wf(),
                0 <= p < 4,
                analysis == &self.spec_analysis(p as int),
                i <= analysis.waits@.len(),
                normal.wf(),
                winner.wf(),
                contributor.wf(),
                input.winner == winner,
                input.melds@.len() <= 4,
                forall|k: int| 0 <= k < input.melds@.len() ==> (#[trigger] input.melds@[k]).wf(),
                input.winner.wf(),
                hand_common.all_tiles.wf(),
                hand_common.winning_tile.wf(),
                hand_common.is_closed == closed,
                hand_common.agari_kind == agari_kind,
                round_wind < 4,
                seat_wind < 4,
                dora <= 80,
                dealer == (winner@ == self.spec_begin().round_id.kyoku as int % 4),
                input.round_id == self.spec_begin().round_id,
                agari_kind == hand_common.agari_kind,
                best matches Some(a) ==> a.winner == winner && a.contributor == contributor
                    && agari_consistent(a, self.spec_begin(), agari_kind),
            decreases analysis.waits@.len() - i,
        {
            let rw = &analysis.waits[i];
            if rw.waiting_tile.encoding() == normal.encoding() {
                match score_one_reading(
                    &input,
                    &hand_common,
                    rw,
                    contributor,
                    dealer,
                    dora,
                    round_wind,
                    seat_wind,
                ) {
                    Some(cand) => {
                        best = better_agari(best, cand);
                    },
                    None => {},
                }
            }
            i += 1;
        }
        // the irregular reading, if it matches the winning tile
        let irr_hit = match &analysis.irregular {
            Some(IrregularWait::SevenPairs(w)) => w.encoding() == normal.encoding(),
            Some(IrregularWait::ThirteenOrphans(w)) => w.encoding() == normal.encoding(),
            Some(IrregularWait::ThirteenOrphansAll) => normal.is_terminal_or_honor(),
            None => false,
        };
        if irr_hit {
            if let Some(irr) = &analysis.irregular {
                let mut yb = crate::yaku::YakuBuilder::new();
                crate::yaku::detect_yakus_for_irregular(&mut yb, &input, &hand_common, *irr);
                let is_chiitoi = matches!(irr, IrregularWait::SevenPairs(_));
                if yb.len() > 0 && yb.len() <= 60 {
                    let han = yb.total_han() + dora as u32;
                    let fu: u8 = if is_chiitoi {
                        25
                    } else {
                        30
                    };
                    let base = calc_base_points(fu, han);
                    let points = calc_points_won(
                        base,
                        dealer,
                        agari_kind,
                        self.begin.round_id.honba,
                    );
                    let stored_han: u8 = if han > 255 {
                        255
                    } else {
                        han as u8
                    };
                    proof {
                        assert(spec_base_points(fu as int, stored_han as int) == spec_base_points(
                            fu as int,
                            han as int,
                        ));
                    }
                    best = better_agari(
                        best,
                        AgariResult {
                            winner,
                            contributor,
                            fu,
                            han: stored_han,
                            points_won: points as i32,
                        },
                    );
                }
            }
        }
        best
    }

    /// Validates the reaction and records it for `step`; never touches the
    /// visible state.
    pub fn register_reaction(&mut self, reactor: Player, reaction: Reaction) -> (r: Result<
        (),
        ReactionError,
    >)
        requires
            old(self).wf(),
            reactor.wf(),
            reaction.wf(),
        ensures
            final(self).wf(),
            // registering never mutates the visible state
            final(self).spec_state() == old(self).spec_state(),
            final(self).spec_begin() == old(self).spec_begin(),
            final(self).spec_end() == old(self).spec_end(),
            final(self).spec_action() == old(self).spec_action(),
            r is Ok ==> final(self).spec_reactions()[reactor@] == Some(reaction),
            old(self).spec_action() is None ==> r == Err::<(), ReactionError>(
                ReactionError::NoAction,
            ),
            // a ron passes the wait and furiten gates exactly when the
            // discarded or kan'd tile is among the cached waits and the
            // reactor is not furiten; what remains then is the yaku check
            (reaction == Reaction::RonAgari && old(self).spec_action() is Some
                && reactable_tile(old(self).spec_action()->Some_0) is Some && reactor@ != old(
                self,
            ).spec_state().core.actor@) ==> ((r is Ok || r == Err::<(), ReactionError>(
                ReactionError::RonWithoutYaku,
            )) <==> (ron_gate(
                old(self).spec_state(),
                reactor@,
                old(self).spec_analysis(reactor@),
                old(self).spec_action()->Some_0,
            ))),
            // meld calls are accepted exactly on their seat, tile and hand
            // conditions
            (reaction matches Reaction::Chii(a, b) && old(self).spec_action() is Some && reactor@
                != old(self).spec_state().core.actor@) ==> ((r is Ok) <==> chii_accept(
                old(self).spec_state(),
                reactor@,
                reaction->Chii_0,
                reaction->Chii_1,
                old(self).spec_action()->Some_0,
            )),
            (reaction matches Reaction::Pon(a, b) && old(self).spec_action() is Some && reactor@
                != old(self).spec_state().core.actor@) ==> ((r is Ok) <==> pon_accept(
                old(self).spec_state(),
                reactor@,
                reaction->Pon_0,
                reaction->Pon_1,
                old(self).spec_action()->Some_0,
            )),
            (reaction == Reaction::Daiminkan && old(self).spec_action() is Some && reactor@ != old(
                self,
            ).spec_state().core.actor@) ==> ((r is Ok) <==> daiminkan_accept(
                old(self).spec_state(),
                reactor@,
                old(self).spec_action()->Some_0,
            )),
    {
        let p = reactor.to_usize();
        self.reactions[p] = None;
        self.reaction_melds[p] = None;
        let action = match self.action {
            Some(a) => a,
            None => {
                return Err(ReactionError::NoAction);
            },
        };
        let actor = self.state.core.actor;
        if reactor.to_u8() == actor.to_u8() {
            return Err(ReactionError::NoAction);
        }
        let result = self.check_reaction(reactor, reaction, action);
        match result {
            Ok(meld) => {
                self.reactions[p] = Some(reaction);
                self.reaction_melds[p] = meld;
                Ok(())
            },
            Err(e) => Err(e),
        }
    }

    /// Validates one reaction against the registered action.
    fn check_reaction(&self, reactor: Player, reaction: Reaction, action: Action) -> (r: Result<
        Option<Meld>,
        ReactionError,
    >)
        requires
            self.wf(),
            reactor.wf(),
            reaction.wf(),
            action.wf(),
            reactor@ != self.spec_state().core.actor@,
        ensures
            r matches Ok(m) ==> (m matches Some(meld) ==> meld.wf()),
            (reaction == Reaction::RonAgari && reactable_tile(action) is Some) ==> ((r is Ok || r
                == Err::<Option<Meld>, ReactionError>(ReactionError::RonWithoutYaku)) <==> ron_gate(
                self.spec_state(),
                reactor@,
                self.spec_analysis(reactor@),
                action,
            )),
            (reaction == Reaction::RonAgari && reactable_tile(action) is None) ==> r == Err::<
                Option<Meld>,
                ReactionError,
            >(ReactionError::DoesNotCompleteHand),
            reaction matches Reaction::Chii(a, b) ==> ((r is Ok) <==> chii_accept(
                self.spec_state(),
                reactor@,
                a,
                b,
                action,
            )),
            reaction matches Reaction::Pon(a, b) ==> ((r is Ok) <==> pon_accept(
                self.spec_state(),
                reactor@,
                a,
                b,
                action,
            )),
            reaction == Reaction::Daiminkan ==> ((r is Ok) <==> daiminkan_accept(
                self.spec_state(),
                reactor@,
                action,
            )),
    {
        let p = reactor.to_usize();
        let actor = self.state.core.actor;
        let hand = self.state.closed_hands[p];
        match reaction {
            Reaction::Chii(a, b) => {
                // only the next player downstream may chii, and only a discard
                if actor.add(1).to_u8() != reactor.to_u8() {
                    return Err(ReactionError::NotFromCorrectPlayer);
                }
                let tile = match action {
                    Action::Discard(d) => d.tile,
                    _ => {
                        return Err(ReactionError::DoesNotCompleteHand);
                    },
                };
                match Chii::from_tiles(a, b, tile) {
                    Some(chii) => {
                        if chii.is_in_hand(&hand) {
                            Ok(Some(Meld::Chii(chii)))
                        } else {
                            Err(ReactionError::TilesNotInHand)
                        }
                    },
                    None => Err(ReactionError::DoesNotCompleteHand),
                }
            },
            Reaction::Pon(a, b) => {
                let tile = match action {
                    Action::Discard(d) => d.tile,
                    _ => {
                        return Err(ReactionError::DoesNotCompleteHand);
                    },
                };
                let dir = Player::new(4 + actor.to_u8() - reactor.to_u8());
                match Pon::from_tiles_dir(a, b, tile, dir) {
                    Some(pon) => {
                        if pon.is_in_hand(&hand) {
                            Ok(Some(Meld::Pon(pon)))
                        } else {
                            Err(ReactionError::TilesNotInHand)
                        }
                    },
                    None => Err(ReactionError::DoesNotCompleteHand),
                }
            },
            Reaction::Daiminkan => {
                let tile = match action {
                    Action::Discard(d) => d.tile,
                    _ => {
                        return Err(ReactionError::DoesNotCompleteHand);
                    },
                };
                if self.draws_remaining() < 1 || self.state.core.num_drawn_tail >= 8 {
                    return Err(ReactionError::KanNotAvailable);
                }
                let dir = Player::new(4 + actor.to_u8() - reactor.to_u8());
                match Daiminkan::from_hand_dir(&hand, tile, dir) {
                    Some(dk) => Ok(Some(Meld::Daiminkan(dk))),
                    None => Err(ReactionError::KanNotAvailable),
                }
            },
            Reaction::RonAgari => {
                let tile = match action {
                    Action::Discard(d) => d.tile,
                    Action::Kakan(t) => t,
                    Action::Ankan(t) => t,
                    _ => {
                        return Err(ReactionError::DoesNotCompleteHand);
                    },
                };
                let analysis = &self.analysis[p];
                let normal = tile.to_normal();
                let in_wait = if matches!(action, Action::Ankan(_)) {
                    // a closed kan may only be robbed for thirteen orphans
                    match &analysis.irregular {
                        Some(IrregularWait::ThirteenOrphans(w)) => w.encoding()
                            == normal.encoding(),
                        Some(IrregularWait::ThirteenOrphansAll) => normal.is_terminal_or_honor(),
                        _ => false,
                    }
                } else {
                    self.tile_in_waits(p, normal)
                };
                if !in_wait {
                    return Err(ReactionError::DoesNotCompleteHand);
                }
                if self.is_furiten(p) {
                    return Err(ReactionError::Furiten);
                }
                match self.score_win(reactor, actor, tile, AgariKind::Ron, action) {
                    Some(_) => Ok(None),
                    None => Err(ReactionError::RonWithoutYaku),
                }
            },
        }
    }

    /// Is `normal` among the cached waiting tiles of player `p`?
    fn tile_in_waits(&self, p: usize, normal: Tile) -> (r: bool)
        requires
            self.wf(),
            p < 4,
            normal.wf(),
            0 <= normal@ < 34,
        ensures
            r == in_wait_set(
                self.spec_analysis(p as int).waits@,
                self.spec_analysis(p as int).irregular,
                normal@,
            ),
    {
        let analysis = &self.analysis[p];
        let mut i: usize = 0;
        let mut found = false;
        while i < analysis.tiles.len()
            invariant
                i <= analysis.tiles@.len(),
                normal.wf(),
                self.wf(),
                0 <= p < 4,
                analysis == &self.spec_analysis(p as int),
                found ==> exists|k: int|
                    0 <= k < i && (#[trigger] analysis.tiles@[k])@ == normal@,
                !found ==> forall|k: int|
                    0 <= k < i ==> (#[trigger] analysis.tiles@[k])@ != normal@,
            decreases analysis.tiles@.len() - i,
        {
            if analysis.tiles[i].encoding() == normal.encoding() {
                found = true;
                proof {
                    assert(analysis.tiles@[i as int]@ == normal@);
                }
            }
            i += 1;
        }
        proof {
            assert(self.spec_analysis(p as int).wf());
        }
        found
    }

    /// Is player `p` furiten: a waiting tile sits in their own discard
    /// stream, or they have passed a winnable tile (permanently so under
    /// riichi)?
    fn is_furiten(&self, p: usize) -> (r: bool)
        requires
            self.wf(),
            p < 4,
        ensures
            r == spec_furiten(self.spec_state(), p as int, self.spec_analysis(p as int)),
    {
        let flags = self.state.furiten[p];
        if flags.temporary || flags.permanent {
            return true;
        }
        let ds = &self.state.discards[p];
        let mut i: usize = 0;
        let mut hit = false;
        while i < ds.len()
            invariant
                i <= ds@.len(),
                self.wf(),
                0 <= p < 4,
                ds == &self.spec_state().discards@[p as int],
                hit ==> exists|k: int|
                    0 <= k < i && in_wait_set(
                        self.spec_analysis(p as int).waits@,
                        self.spec_analysis(p as int).irregular,
                        spec_normal((#[trigger] ds@[k]).tile@),
                    ),
                !hit ==> forall|k: int|
                    0 <= k < i ==> !in_wait_set(
                        self.spec_analysis(p as int).waits@,
                        self.spec_analysis(p as int).irregular,
                        spec_normal((#[trigger] ds@[k]).tile@),
                    ),
            decreases ds@.len() - i,
        {
            let t = ds[i].tile;
            proof {
                assert(self.spec_state().wf());
                assert(ds@[i as int].wf());
            }
            let normal = t.to_normal();
            if self.tile_in_waits(p, normal) {
                hit = true;
                proof {
                    assert(in_wait_set(
                        self.spec_analysis(p as int).waits@,
                        self.spec_analysis(p as int).irregular,
                        spec_normal(ds@[i as int].tile@),
                    ));
                }
            }
            i += 1;
        }
        hit
    }
}

/// Acceptance of a chii: only the next player downstream may call, only a
/// discard can be called, the three tiles must form a run, and the own
/// tiles must be in the caller's hand.
pub open spec fn chii_accept(s: State, q: int, a: Tile, b: Tile, act: Action) -> bool {
    match act {
        Action::Discard(d) => {
            &&& (s.core.actor@ + 1) % 4 == q
            &&& crate::meld::chii_formable(a@, b@, d.tile@)
            &&& s.closed_hands@[q]@[a@] >= 1
            &&& s.closed_hands@[q]@[b@] >= 1
        },
        _ => false,
    }
}

/// Acceptance of a pon: a discard of the same normal kind as both own
/// tiles, which must be in the caller's hand (two of them when they are
/// the same encoding).
pub open spec fn pon_accept(s: State, q: int, a: Tile, b: Tile, act: Action) -> bool {
    match act {
        Action::Discard(d) => {
            &&& spec_normal(a@) == spec_normal(d.tile@)
            &&& spec_normal(b@) == spec_normal(d.tile@)
            &&& if a@ == b@ {
                s.closed_hands@[q]@[a@] >= 2
            } else {
                s.closed_hands@[q]@[a@] >= 1 && s.closed_hands@[q]@[b@] >= 1
            }
        },
        _ => false,
    }
}

/// Acceptance of a big open kan: a discard with exactly three matching
/// tiles (reds included) in the caller's hand, and a replacement tile
/// still available.
pub open spec fn daiminkan_accept(s: State, q: int, act: Action) -> bool {
    match act {
        Action::Discard(d) => {
            &&& crate::meld::kan_count_in_hand(s.closed_hands@[q]@, d.tile@) == 3
            &&& draws_left(s) >= 1
            &&& s.core.num_drawn_tail < 8
        },
        _ => false,
    }
}

/// The tile a reaction can take: a discard's tile, or the tile of a kan
/// being declared (robbable by ron).
pub open spec fn reactable_tile(a: Action) -> Option<Tile> {
    match a {
        Action::Discard(d) => Some(d.tile),
        Action::Kakan(t) => Some(t),
        Action::Ankan(t) => Some(t),
        _ => None,
    }
}

/// The decidable part of the ron check: the tile completes the reactor's
/// hand (through the cached waits; only thirteen orphans may rob a closed
/// kan) and the reactor is not furiten.
pub open spec fn ron_gate(s: State, p: int, an: HandAnalysis, a: Action) -> bool {
    match reactable_tile(a) {
        Some(t) => {
            let n = spec_normal(t@);
            &&& (if a matches Action::Ankan(_) {
                match an.irregular {
                    Some(IrregularWait::ThirteenOrphans(w)) => w@ == n,
                    Some(IrregularWait::ThirteenOrphansAll) => spec_is_terminal_or_honor(n),
                    _ => false,
                }
            } else {
                in_wait_set(an.waits@, an.irregular, n)
            })
            &&& !spec_furiten(s, p, an)
        },
        None => false,
    }
}

/// Furiten: a missed-win flag is set, or some own discard is among the
/// hand's waiting kinds.
pub open spec fn spec_furiten(s: State, p: int, an: HandAnalysis) -> bool {
    ||| s.furiten@[p].temporary
    ||| s.furiten@[p].permanent
    ||| exists|k: int|
        0 <= k < s.discards@[p]@.len() && in_wait_set(
            an.waits@,
            an.irregular,
            spec_normal((#[trigger] s.discards@[p]@[k]).tile@),
        )
}

/// Scores one regular reading of a win; `None` when it carries no yaku.
#[verifier::rlimit(100)]
#[verifier::spinoff_prover]
fn score_one_reading(
    input: &crate::yaku::AgariInput,
    hand_common: &crate::yaku::HandCommon,
    rw: &RegularWait,
    contributor: Player,
    dealer: bool,
    dora: u8,
    round_wind: u8,
    seat_wind: u8,
) -> (r: Option<AgariResult>)
    requires
        forall|k: int| 0 <= k < input.melds@.len() ==> (#[trigger] input.melds@[k]).wf(),
        input.melds@.len() <= 4,
        rw.wf(),
        hand_common.all_tiles.wf(),
        hand_common.winning_tile.wf(),
        input.winner.wf(),
        round_wind < 4,
        seat_wind < 4,
        dora <= 80,
    ensures
        r matches Some(a) ==> a.winner == input.winner && a.contributor == contributor
            && a.points_won as int == spec_points_won(
            spec_base_points(a.fu as int, a.han as int),
            dealer,
            hand_common.agari_kind,
            input.round_id.honba as int,
        ) && 0 <= a.points_won <= 200000,
{
    let wait_group = rw.wait_group();
    let extra_fu = crate::yaku::calc_extra_fu(
        rw,
        &input.melds,
        hand_common.agari_kind,
        round_wind,
        seat_wind,
    );
    let wait_common = crate::yaku::RegularWaitCommon { extra_fu, wait_group };
    let mut yb = crate::yaku::YakuBuilder::new();
    crate::yaku::detect_yakus_for_regular(&mut yb, input, hand_common, rw, &wait_common);
    if yb.len() > 0 && yb.len() <= 60 {
        let han = yb.total_han() + dora as u32;
        let fu = crate::yaku::calc_total_fu(extra_fu, hand_common.is_closed, hand_common.agari_kind);
        let base = calc_base_points(fu, han);
        let points = calc_points_won(base, dealer, hand_common.agari_kind, input.round_id.honba);
        let stored_han: u8 = if han > 255 {
            255
        } else {
            han as u8
        };
        proof {
            // the cap cannot change the score: 13 han already top out
            assert(spec_base_points(fu as int, stored_han as int) == spec_base_points(
                fu as int,
                han as int,
            ));
        }
        Some(
            AgariResult {
                winner: input.winner,
                contributor,
                fu,
                han: stored_han,
                points_won: points as i32,
            },
        )
    } else {
        None
    }
}

/// A fresh copy of a discard stream.
fn copy_discards(v: &Vec<Discard>) -> (r: Vec<Discard>)
    ensures
        r@ == v@,
{
    let mut r: Vec<Discard> = Vec::new();
    let mut i: usize = 0;
    while i < v.len()
        invariant
            i <= v@.len(),
            r@ == v@.take(i as int),
        decreases v@.len() - i,
    {
        let d = v[i];
        proof {
            assert(v@.take(i as int).push(v@[i as int]) =~= v@.take(i + 1));
        }
        r.push(d);
        i += 1;
    }
    proof {
        assert(v@.take(v@.len() as int) =~= v@);
    }
    r
}

/// Removes the discarded tile from the hand, merging the pending draw in
/// its place. Fails (leaving the hand unchanged) when the tile is not
/// available or the merged hand would exceed four of a kind.
fn remove_and_merge(hand: &TileSet37, t: Tile, draw: Option<Tile>) -> (r: (TileSet37, bool))
    requires
        hand.wf(),
        t.wf(),
        draw matches Some(dt) ==> dt.wf(),
    ensures
        r.1 ==> r.0.wf() && sum_counts(r.0@, 37) == sum_counts(hand@, 37) + (
        if draw is Some {
            1int
        } else {
            0int
        }) - 1,
        !r.1 ==> r.0 == *hand,
{
    let mut h = *hand;
    match draw {
        Some(dt) => {
            if dt.encoding() == t.encoding() {
                // discarding the draw itself
                return (h, true);
            }
            if h.get(t) < 1 {
                return (*hand, false);
            }
            if count_held_of_kind(&h, dt) >= 4 {
                return (*hand, false);
            }
            let c = h.get(t);
            h.set(t, (c - 1) as u8);
            proof {
                crate::tile_set::lemma_sum_counts_update(hand@, t@, (c - 1) as u8, 37);
            }
            let ghost h1 = h@;
            let cd = h.get(dt);
            h.set(dt, cd + 1);
            proof {
                crate::tile_set::lemma_sum_counts_update(h1, dt@, (cd + 1) as u8, 37);
            }
            (h, true)
        },
        None => {
            if h.get(t) < 1 {
                return (*hand, false);
            }
            let c = h.get(t);
            h.set(t, (c - 1) as u8);
            proof {
                crate::tile_set::lemma_sum_counts_update(hand@, t@, (c - 1) as u8, 37);
            }
            (h, true)
        },
    }
}

/// Removes exactly `n` tiles of the normal kind of `t` (reds included) by
/// clearing both slots; fails when the combined count is not `n`.
fn remove_kind_exact(hand: &TileSet37, t: Tile, n: u8) -> (r: (TileSet37, bool))
    requires
        hand.wf(),
        t.wf(),
    ensures
        r.1 ==> r.0.wf() && sum_counts(r.0@, 37) == sum_counts(hand@, 37) - n,
        !r.1 ==> r.0 == *hand,
{
    let normal = t.to_normal();
    let red = normal.to_red();
    let mut h = *hand;
    let combined = count_held_of_kind(&h, t);
    if combined != n {
        return (*hand, false);
    }
    let c0 = h.get(normal);
    h.set(normal, 0);
    proof {
        crate::tile_set::lemma_sum_counts_update(hand@, spec_normal(t@), 0, 37);
    }
    if red.encoding() != normal.encoding() {
        let ghost h1 = h@;
        h.set(red, 0);
        proof {
            crate::tile_set::lemma_sum_counts_update(h1, crate::tile::spec_to_red(spec_normal(t@)), 0, 37);
        }
    }
    (h, true)
}

/// Adds the pending draw into the hand; fails when that would exceed four
/// of a kind.
fn merge_draw(hand: &TileSet37, draw: Option<Tile>) -> (r: (TileSet37, bool))
    requires
        hand.wf(),
        draw matches Some(dt) ==> dt.wf(),
    ensures
        r.1 ==> r.0.wf() && sum_counts(r.0@, 37) == sum_counts(hand@, 37) + (
        if draw is Some {
            1int
        } else {
            0int
        }),
        !r.1 ==> r.0 == *hand,
{
    let mut h = *hand;
    match draw {
        Some(dt) => {
            if count_held_of_kind(&h, dt) >= 4 {
                return (*hand, false);
            }
            let c = h.get(dt);
            h.set(dt, c + 1);
            proof {
                crate::tile_set::lemma_sum_counts_update(hand@, dt@, (c + 1) as u8, 37);
            }
            (h, true)
        },
        None => (h, true),
    }
}

/// Keeps the higher-scoring of two win readings.
fn better_agari(best: Option<AgariResult>, cand: AgariResult) -> (r: Option<AgariResult>)
    ensures
        r matches Some(a) ==> (best matches Some(b) && (a == b || a == cand)) || (best is None
            && a == cand),
        r is Some,
{
    match best {
        Some(b) => {
            if cand.points_won > b.points_won {
                Some(cand)
            } else {
                Some(b)
            }
        },
        None => Some(cand),
    }
}

/// Removes one copy of exactly the given tile; fails when none is held.
fn remove_one(hand: &TileSet37, t: Tile) -> (r: (TileSet37, bool))
    requires
        hand.wf(),
        t.wf(),
    ensures
        r.1 ==> r.0.wf() && sum_counts(r.0@, 37) == sum_counts(hand@, 37) - 1,
        !r.1 ==> r.0 == *hand,
{
    let mut h = *hand;
    if h.get(t) < 1 {
        return (*hand, false);
    }
    let c = h.get(t);
    h.set(t, (c - 1) as u8);
    proof {
        crate::tile_set::lemma_sum_counts_update(hand@, t@, (c - 1) as u8, 37);
    }
    (h, true)
}

/// Removes a chii's or pon's two own tiles; fails when they are not held.
fn remove_two(hand: &TileSet37, a: Tile, b: Tile) -> (r: (TileSet37, bool))
    requires
        hand.wf(),
        a.wf(),
        b.wf(),
    ensures
        r.1 ==> r.0.wf() && sum_counts(r.0@, 37) == sum_counts(hand@, 37) - 2,
        !r.1 ==> r.0 == *hand,
{
    let (h1, ok1) = remove_one(hand, a);
    if !ok1 {
        return (*hand, false);
    }
    let (h2, ok2) = remove_one(&h1, b);
    if !ok2 {
        return (*hand, false);
    }
    (h2, true)
}

/// Own-tile totals over a prefix of a meld listing.
pub open spec fn melds_own_prefix(ms: Seq<Meld>, n: int) -> int
    decreases n,
{
    if n <= 0 {
        0
    } else {
        melds_own_prefix(ms, n - 1) + meld_own_tiles(ms[n - 1])
    }
}

proof fn lemma_melds_own_prefix_total(ms: Seq<Meld>, n: int)
    requires
        0 <= n <= ms.len(),
    ensures
        melds_own_prefix(ms, n) == melds_own_total(ms.take(n)),
    decreases n,
{
    if n > 0 {
        lemma_melds_own_prefix_total(ms, n - 1);
        assert(ms.take(n).drop_last() =~= ms.take(n - 1));
        assert(ms.take(n).last() == ms[n - 1]);
    }
}

/// Replaces the meld at `idx` (a pon) by its promoted kakan. The new
/// listing keeps one more own tile than the old.
fn promote_pon(ms: &Vec<Meld>, idx: usize, kakan: Kakan) -> (r: Vec<Meld>)
    requires
        idx < ms@.len(),
        ms@[idx as int] matches Meld::Pon(_),
        kakan.wf(),
        forall|i: int| 0 <= i < ms@.len() ==> (#[trigger] ms@[i]).wf(),
    ensures
        r@.len() == ms@.len(),
        melds_own_total(r@) == melds_own_total(ms@) + 1,
        forall|i: int| 0 <= i < r@.len() ==> (#[trigger] r@[i]).wf(),
        r@[idx as int] == Meld::Kakan(kakan),
        forall|i: int| 0 <= i < r@.len() && i != idx ==> r@[i] == ms@[i],
{
    let mut r: Vec<Meld> = Vec::new();
    let mut i: usize = 0;
    while i < ms.len()
        invariant
            i <= ms@.len(),
            idx < ms@.len(),
            ms@[idx as int] matches Meld::Pon(_),
            kakan.wf(),
            forall|k: int| 0 <= k < ms@.len() ==> (#[trigger] ms@[k]).wf(),
            r@.len() == i as int,
            forall|k: int| 0 <= k < i && k != idx ==> #[trigger] r@[k] == ms@[k],
            i > idx ==> r@[idx as int] == Meld::Kakan(kakan),
            melds_own_prefix(r@, i as int) == melds_own_prefix(ms@, i as int) + (
            if i > idx {
                1int
            } else {
                0int
            }),
        decreases ms@.len() - i,
    {
        let ghost r0 = r@;
        if i == idx {
            r.push(Meld::Kakan(kakan));
        } else {
            r.push(ms[i]);
        }
        proof {
            assert(forall|k: int| 0 <= k < i ==> #[trigger] r@[k] == r0[k]);
            assert(melds_own_prefix(r@, i as int) == melds_own_prefix(r0, i as int)) by {
                lemma_melds_own_prefix_congruent(r@, r0, i as int);
            }
        }
        i += 1;
    }
    proof {
        lemma_melds_own_prefix_total(r@, r@.len() as int);
        lemma_melds_own_prefix_total(ms@, ms@.len() as int);
        assert(r@.take(r@.len() as int) =~= r@);
        assert(ms@.take(ms@.len() as int) =~= ms@);
    }
    r
}

proof fn lemma_melds_own_prefix_congruent(a: Seq<Meld>, b: Seq<Meld>, n: int)
    requires
        0 <= n,
        forall|k: int| 0 <= k < n ==> #[trigger] a[k] == b[k],
    ensures
        melds_own_prefix(a, n) == melds_own_prefix(b, n),
    decreases n,
{
    if n > 0 {
        lemma_melds_own_prefix_congruent(a, b, n - 1);
    }
}

/// The riichi deposits standing among the first `n` players.
pub open spec fn spec_riichi_count(s: State, n: int) -> int
    decreases n,
{
    if n <= 0 {
        0
    } else {
        spec_riichi_count(s, n - 1) + if s.riichi_flags@[n - 1].is_active {
            1int
        } else {
            0int
        }
    }
}

/// The carried pot, kept within a sane range.
pub open spec fn spec_clamp_pot(p: int) -> int {
    if p > 1000000 {
        1000000
    } else if p < 0 {
        0
    } else {
        p
    }
}

/// The point movement an abort causes: standing riichi declarers lose
/// their deposits, nobody else moves.
pub open spec fn abort_delta(s: State, q: int) -> int {
    if s.riichi_flags@[q].is_active {
        -1000
    } else {
        0
    }
}

impl Engine {
    /// Ends the round with an abort: deposits of standing riichi move to
    /// the pot, which carries over; nobody is paid.
    fn finish_abort(&mut self, result: ActionResult)
        requires
            old(self).wf(),
        ensures
            final(self).wf(),
            final(self).spec_state() == old(self).spec_state(),
            final(self).spec_begin() == old(self).spec_begin(),
            final(self).spec_end() matches Some(re) && re.result == result && re.agari@.len() == 0
                && re.points_delta@.len() == 4 && (forall|q: int|
                0 <= q < 4 ==> #[trigger] re.points_delta@[q] == abort_delta(
                    old(self).spec_state(),
                    q,
                )) && re.pot == spec_clamp_pot(old(self).spec_begin().pot as int) + 1000
                * spec_riichi_count(old(self).spec_state(), 4),
    {
        let mut delta: [i32; 4] = [0, 0, 0, 0];
        let mut pot: i32 = if self.begin.pot > 1000000 {
            1000000
        } else if self.begin.pot < 0 {
            0
        } else {
            self.begin.pot
        };
        let mut q: usize = 0;
        while q < 4
            invariant
                q <= 4,
                self.wf(),
                self == old(self),
                delta@.len() == 4,
                pot as int == spec_clamp_pot(self.spec_begin().pot as int) + 1000
                    * spec_riichi_count(self.spec_state(), q as int),
                0 <= pot <= 1000000 + 1000 * q,
                forall|k: int| 0 <= k < q ==> #[trigger] delta@[k] == abort_delta(
                    self.spec_state(),
                    k,
                ),
                forall|k: int| q <= k < 4 ==> #[trigger] delta@[k] == 0,
            decreases 4 - q,
        {
            if self.state.riichi_flags[q].is_active {
                delta[q] = -1000;
                pot = pot + 1000;
            }
            q += 1;
        }
        let points = add_points(&self.begin.points, &delta);
        self.end = Some(
            RoundEnd { result, points_delta: delta, pot, points, agari: Vec::new() },
        );
    }

    /// Ends the round with one or more winners: each is paid, deposits and
    /// the pot go to the first winner, and the pot resets.
    fn finish_agari(&mut self, winners: Vec<AgariResult>, result: ActionResult)
        requires
            old(self).wf(),
            winners@.len() <= 4,
            forall|i: int|
                0 <= i < winners@.len() ==> (#[trigger] winners@[i]).winner.wf() && winners@[i].contributor.wf()
                    && 0 <= winners@[i].points_won <= 1000000,
        ensures
            final(self).wf(),
            final(self).spec_state() == old(self).spec_state(),
            final(self).spec_begin() == old(self).spec_begin(),
            final(self).spec_end() matches Some(re) && re.result == result && re.agari@
                == winners@,
    {
        let mut delta: [i32; 4] = [0, 0, 0, 0];
        // riichi deposits leave their declarers
        let mut pot: i32 = if self.begin.pot > 1000000 {
            1000000
        } else if self.begin.pot < 0 {
            0
        } else {
            self.begin.pot
        };
        let mut q: usize = 0;
        while q < 4
            invariant
                q <= 4,
                self.wf(),
                delta@.len() == 4,
                0 <= pot <= 1000000 + 1000 * q,
                forall|k: int| 0 <= k < 4 ==> -1000 <= #[trigger] delta@[k] <= 0,
            decreases 4 - q,
        {
            if self.state.riichi_flags[q].is_active {
                delta[q] = -1000;
                pot = pot + 1000;
            }
            q += 1;
        }
        let dealer = self.begin.round_id.button();
        let mut i: usize = 0;
        while i < winners.len()
            invariant
                self.wf(),
                i <= winners@.len() <= 4,
                delta@.len() == 4,
                0 <= pot <= 2000000,
                forall|k: int|
                    0 <= k < winners@.len() ==> (#[trigger] winners@[k]).winner.wf()
                        && winners@[k].contributor.wf() && 0 <= winners@[k].points_won <= 1000000,
                forall|k: int| 0 <= k < 4 ==> -20000000 <= #[trigger] delta@[k] <= 20000000,
            decreases winners@.len() - i,
        {
            let ag = winners[i];
            let w = ag.winner.to_usize();
            let won = ag.points_won;
            delta[w] = clamp_points(delta[w] + won);
            if matches!(result, ActionResult::RonAgari) {
                let c = ag.contributor.to_usize();
                delta[c] = clamp_points(delta[c] - won);
            } else {
                // self-draw: split among the three payers
                let base = calc_base_points(ag.fu, ag.han as u32);
                let mut q2: usize = 0;
                while q2 < 4
                    invariant
                        q2 <= 4,
                        w < 4,
                        base <= 8000,
                        self.wf(),
                        delta@.len() == 4,
                        forall|k: int|
                            0 <= k < 4 ==> -20000000 <= #[trigger] delta@[k] <= 20000000,
                    decreases 4 - q2,
                {
                    if q2 != w {
                        let is_dealer_payer = self.begin.round_id.button().to_usize() == q2;
                        let winner_is_dealer = self.begin.round_id.button().to_usize() == w;
                        let share: u32 = if winner_is_dealer || is_dealer_payer {
                            ((2 * base + 99) / 100) * 100
                        } else {
                            ((base + 99) / 100) * 100
                        };
                        let pay = share + 100 * (self.begin.round_id.honba as u32);
                        delta[q2] = clamp_points(delta[q2] - pay as i32);
                    }
                    q2 += 1;
                }
            }
            if i == 0 {
                delta[w] = clamp_points(delta[w] + pot);
                pot = 0;
            }
            i += 1;
        }
        let points = add_points(&self.begin.points, &delta);
        self.end = Some(RoundEnd { result, points_delta: delta, pot, points, agari: winners });
    }
}

/// Clamps a point total to a sane range (point values in play never come
/// near it).
fn clamp_points(x: i32) -> (r: i32)
    ensures
        -20000000 <= r <= 20000000,
{
    if x > 20000000 {
        20000000
    } else if x < -20000000 {
        -20000000
    } else {
        x
    }
}

/// Adds two point arrays, saturating.
fn add_points(a: &[i32; 4], b: &[i32; 4]) -> (r: [i32; 4])
    ensures
        r@.len() == 4,
{
    let mut r: [i32; 4] = [0, 0, 0, 0];
    let mut i: usize = 0;
    while i < 4
        invariant
            i <= 4,
            r@.len() == 4,
        decreases 4 - i,
    {
        let x: i64 = a[i] as i64 + b[i] as i64;
        r[i] = if x > 2000000000 {
            2000000000
        } else if x < -2000000000 {
            -2000000000
        } else {
            x as i32
        };
        i += 1;
    }
    r
}

impl Engine {
    /// Clears every player's one-shot (ippatsu) window.
    fn clear_ippatsu(&mut self)
        requires
            old(self).wf(),
        ensures
            final(self).wf(),
            final(self).spec_state().core == old(self).spec_state().core,
            final(self).spec_state().closed_hands == old(self).spec_state().closed_hands,
            final(self).spec_state().melds == old(self).spec_state().melds,
            final(self).spec_state().discards == old(self).spec_state().discards,
            final(self).spec_end() == old(self).spec_end(),
            final(self).spec_begin() == old(self).spec_begin(),
    {
        let mut q: usize = 0;
        while q < 4
            invariant
                q <= 4,
                self.wf(),
                self.spec_state().core == old(self).spec_state().core,
                self.spec_state().closed_hands == old(self).spec_state().closed_hands,
                self.spec_state().melds == old(self).spec_state().melds,
                self.spec_state().discards == old(self).spec_state().discards,
                self.spec_end() == old(self).spec_end(),
                self.spec_begin() == old(self).spec_begin(),
            decreases 4 - q,
        {
            let mut f = self.state.riichi_flags[q];
            f.is_ippatsu = false;
            self.state.riichi_flags[q] = f;
            q += 1;
        }
    }

    /// Marks temporary (and under riichi, permanent) furiten for every
    /// opponent whose wait contains the tile that just passed them by.
    fn mark_furiten(&mut self, discarder: usize, tile: Tile)
        requires
            old(self).wf(),
            discarder < 4,
            tile.wf(),
        ensures
            final(self).wf(),
            final(self).spec_state().core == old(self).spec_state().core,
            final(self).spec_state().closed_hands == old(self).spec_state().closed_hands,
            final(self).spec_state().melds == old(self).spec_state().melds,
            final(self).spec_state().discards == old(self).spec_state().discards,
            final(self).spec_end() == old(self).spec_end(),
            final(self).spec_begin() == old(self).spec_begin(),
    {
        let normal = tile.to_normal();
        let mut q: usize = 0;
        while q < 4
            invariant
                q <= 4,
                self.wf(),
                normal.wf(),
                0 <= normal@ < 34,
                self.spec_state().core == old(self).spec_state().core,
                self.spec_state().closed_hands == old(self).spec_state().closed_hands,
                self.spec_state().melds == old(self).spec_state().melds,
                self.spec_state().discards == old(self).spec_state().discards,
                self.spec_end() == old(self).spec_end(),
                self.spec_begin() == old(self).spec_begin(),
            decreases 4 - q,
        {
            if q != discarder {
                if self.tile_in_waits(q, normal) {
                    let mut f = self.state.furiten[q];
                    f.temporary = true;
                    if self.state.riichi_flags[q].is_active {
                        f.permanent = true;
                    }
                    self.state.furiten[q] = f;
                }
            }
            q += 1;
        }
    }

    /// Commits the registered discard to the table: the tile leaves the
    /// actor's hand (or is the draw itself), joins their stream with
    /// `called_by`, and riichi riding on it takes effect.
    fn commit_discard(&mut self, d: Discard, called_by: Player) -> (r: bool)
        requires
            old(self).wf(),
            d.wf(),
            called_by.wf(),
        ensures
            final(self).wf(),
            final(self).spec_begin() == old(self).spec_begin(),
            final(self).spec_end() == old(self).spec_end(),
            r ==> final(self).spec_state().core.seq == old(self).spec_state().core.seq
                && final(self).spec_state().core.num_drawn_head == old(
                self,
            ).spec_state().core.num_drawn_head && final(self).spec_state().core.num_drawn_tail
                == old(self).spec_state().core.num_drawn_tail && final(self).spec_state().core.draw
                is None && final(self).spec_state().core.actor == old(
                self,
            ).spec_state().core.actor,
            r ==> final(self).spec_state().discards@[old(self).spec_state().core.actor@]@.len()
                == old(self).spec_state().discards@[old(self).spec_state().core.actor@]@.len() + 1,
            !r ==> final(self).spec_state() == old(self).spec_state(),
    {
        let p = self.state.core.actor.to_usize();
        let hand = self.state.closed_hands[p];
        let (h2, ok) = remove_and_merge(&hand, d.tile, self.state.core.draw);
        if !ok {
            return false;
        }
        let is_init = self.melds_empty() && self.state.discards[p].len() == 0;
        let ghost s0 = self.state;
        self.state.closed_hands[p] = h2;
        let mut ds = copy_discards(&self.state.discards[p]);
        ds.push(
            Discard {
                tile: d.tile,
                called_by,
                declares_riichi: d.declares_riichi,
                is_tsumogiri: d.is_tsumogiri,
            },
        );
        self.state.discards[p] = ds;
        let mut core = self.state.core;
        core.draw = None;
        self.state.core = core;
        if d.declares_riichi && !self.state.riichi_flags[p].is_active {
            self.state.riichi_flags[p] = RiichiFlags {
                is_active: true,
                is_double: is_init,
                is_ippatsu: true,
            };
        } else {
            let mut f = self.state.riichi_flags[p];
            f.is_ippatsu = false;
            self.state.riichi_flags[p] = f;
        }
        self.state.incoming_meld = None;
        let analysis = analyze_hand(&h2);
        self.analysis[p] = analysis;
        proof {
            let s1 = self.state;
            assert(s1.discards@[p as int]@ =~= s0.discards@[p as int]@.push(
                Discard {
                    tile: d.tile,
                    called_by,
                    declares_riichi: d.declares_riichi,
                    is_tsumogiri: d.is_tsumogiri,
                },
            ));
            assert forall|k: int| 0 <= k < 4 && k != p as int implies player_visible(s1, k)
                == player_visible(s0, k) by {
                assert(s1.closed_hands@[k] == s0.closed_hands@[k]);
                assert(s1.melds@[k] == s0.melds@[k]);
                assert(s1.discards@[k] == s0.discards@[k]);
            }
            assert(player_visible(s1, p as int) == player_visible(s0, p as int) + (
            if s0.core.draw is Some {
                1int
            } else {
                0int
            }));
            assert(spec_conserved(s1));
        }
        // everyone who let the tile pass may now be furiten
        self.mark_furiten(p, d.tile);
        true
    }

    /// Checks the end-of-turn aborts after a committed discard. Returns
    /// the abort result, or `None` when the round goes on.
    fn discard_abort(&self) -> (r: Option<ActionResult>)
        requires
            self.wf(),
        ensures
            r is None ==> draws_left(self.spec_state()) >= 1,
            r matches Some(a) ==> (a == ActionResult::AbortFourWind || a
                == ActionResult::AbortFourRiichi || a == ActionResult::AbortFourKan || a
                == ActionResult::AbortNagashiMangan || a == ActionResult::AbortWallExhausted),
    {
        // four identical wind discards, uninterrupted
        let mut all_one = true;
        let mut q: usize = 0;
        while q < 4
            invariant
                q <= 4,
                self.wf(),
                all_one == forall|k: int|
                    0 <= k < q ==> (#[trigger] self.spec_state().discards@[k]@).len() == 1,
            decreases 4 - q,
        {
            if self.state.discards[q].len() != 1 {
                all_one = false;
            }
            q += 1;
        }
        if all_one && self.melds_empty() {
            let t0 = self.state.discards[0][0].tile.to_normal();
            let e0 = t0.encoding();
            if 27 <= e0 && e0 < 31 {
                let mut same = true;
                let mut q2: usize = 1;
                while q2 < 4
                    invariant
                        1 <= q2 <= 4,
                        self.wf(),
                        forall|k: int|
                            0 <= k < 4 ==> (#[trigger] self.spec_state().discards@[k]@).len() == 1,
                    decreases 4 - q2,
                {
                    if self.state.discards[q2][0].tile.normal_encoding() != e0 {
                        same = false;
                    }
                    q2 += 1;
                }
                if same {
                    return Some(ActionResult::AbortFourWind);
                }
            }
        }
        // all four players under riichi
        if self.state.riichi_flags[0].is_active && self.state.riichi_flags[1].is_active
            && self.state.riichi_flags[2].is_active && self.state.riichi_flags[3].is_active {
            return Some(ActionResult::AbortFourRiichi);
        }
        // four kans over more than one player
        if let Some(k) = self.four_kan_abort() {
            return Some(k);
        }
        // exhausted wall
        if self.draws_remaining() == 0 {
            let mut q3: usize = 0;
            let mut nagashi = false;
            while q3 < 4
                invariant
                    q3 <= 4,
                    self.wf(),
                decreases 4 - q3,
            {
                let ds = &self.state.discards[q3];
                if ds.len() > 0 {
                    let mut pure = true;
                    let mut i: usize = 0;
                    while i < ds.len()
                        invariant
                            i <= ds@.len(),
                            self.wf(),
                            q3 < 4,
                            ds == &self.spec_state().discards@[q3 as int],
                        decreases ds@.len() - i,
                    {
                        proof {
                            assert(self.spec_state().wf());
                            assert(ds@[i as int].wf());
                        }
                        let dd = ds[i];
                        if !dd.tile.is_terminal_or_honor() || dd.called_by.to_usize() != q3 {
                            pure = false;
                        }
                        i += 1;
                    }
                    if pure {
                        nagashi = true;
                    }
                }
                q3 += 1;
            }
            if nagashi {
                return Some(ActionResult::AbortNagashiMangan);
            }
            return Some(ActionResult::AbortWallExhausted);
        }
        None
    }

    /// Four kans by more than one player abort the round.
    fn four_kan_abort(&self) -> (r: Option<ActionResult>)
        requires
            self.wf(),
        ensures
            r matches Some(a) ==> a == ActionResult::AbortFourKan,
    {
        let mut total: usize = 0;
        let mut max_one: usize = 0;
        let mut q: usize = 0;
        while q < 4
            invariant
                q <= 4,
                self.wf(),
                total <= 4 * q,
                max_one <= 4,
            decreases 4 - q,
        {
            let ms = &self.state.melds[q];
            let mut kans: usize = 0;
            let mut i: usize = 0;
            while i < ms.len()
                invariant
                    i <= ms@.len(),
                    self.wf(),
                    q < 4,
                    ms == &self.spec_state().melds@[q as int],
                    kans <= i,
                decreases ms@.len() - i,
            {
                if ms[i].is_kan() {
                    kans += 1;
                }
                i += 1;
            }
            proof {
                assert(ms@.len() <= 4);
            }
            if kans > max_one {
                max_one = kans;
            }
            total += kans;
            q += 1;
        }
        if total >= 4 && max_one < total {
            Some(ActionResult::AbortFourKan)
        } else {
            None
        }
    }

    /// Advances the turn: the next player (or the given caller) becomes the
    /// actor and draws from the head of the wall.
    fn advance_turn(&mut self, next: Player) -> (r: StateCore)
        requires
            old(self).wf(),
            next.wf(),
            draws_left(old(self).spec_state()) >= 1,
            old(self).spec_state().core.draw is None,
        ensures
            final(self).wf(),
            final(self).spec_begin() == old(self).spec_begin(),
            final(self).spec_end() == old(self).spec_end(),
            r.seq == old(self).spec_state().core.seq + 1,
            r.actor == next,
            final(self).spec_state().core == r,
            final(self).spec_state().discards == old(self).spec_state().discards,
    {
        let head = self.state.core.num_drawn_head;
        let t = self.begin.wall[head as usize];
        let ghost s0 = self.state;
        let core = StateCore {
            seq: self.state.core.seq + 1,
            actor: next,
            num_drawn_head: head + 1,
            num_drawn_tail: self.state.core.num_drawn_tail,
            draw: Some(t),
        };
        self.state.core = core;
        let np = next.to_usize();
        let mut f = self.state.furiten[np];
        f.temporary = false;
        self.state.furiten[np] = f;
        proof {
            let s1 = self.state;
            assert forall|k: int| 0 <= k < 4 implies player_visible(s1, k) == player_visible(
                s0,
                k,
            ) by {
                assert(s1.closed_hands@[k] == s0.closed_hands@[k]);
                assert(s1.melds@[k] == s0.melds@[k]);
                assert(s1.discards@[k] == s0.discards@[k]);
            }
            assert(spec_conserved(s1));
        }
        core
    }
}

impl Engine {
    /// Commits a called meld: the caller takes the tile, reveals the meld,
    /// and becomes the actor (drawing a replacement for a daiminkan).
    fn commit_call(&mut self, caller: Player, m: Meld) -> (r: Result<StateCore, ActionError>)
        requires
            old(self).wf(),
            caller.wf(),
            m.wf(),
            old(self).spec_state().core.draw is None,
            caller@ != old(self).spec_state().core.actor@,
        ensures
            final(self).wf(),
            final(self).spec_begin() == old(self).spec_begin(),
            final(self).spec_end() == old(self).spec_end(),
            r matches Ok(c) ==> c.seq == old(self).spec_state().core.seq + 1
                && final(self).spec_state().core == c,
    {
        let q = caller.to_usize();
        if self.state.melds[q].len() >= 4 {
            return Err(ActionError::KanNotAvailable);
        }
        let hand = self.state.closed_hands[q];
        let (h2, removed, ok): (TileSet37, u8, bool) = match m {
            Meld::Chii(c) => {
                let (h, ok) = remove_two(&hand, c.own0, c.own1);
                (h, 2, ok)
            },
            Meld::Pon(pn) => {
                let (h, ok) = remove_two(&hand, pn.own0, pn.own1);
                (h, 2, ok)
            },
            Meld::Daiminkan(dk) => {
                let (h, ok) = remove_kind_exact(&hand, dk.called, 3);
                (h, 3, ok)
            },
            _ => (hand, 0, false),
        };
        if !ok {
            return Err(ActionError::TileNotInHand);
        }
        let is_kan = matches!(m, Meld::Daiminkan(_));
        if is_kan && (self.draws_remaining() < 1 || self.state.core.num_drawn_tail >= 8) {
            return Err(ActionError::WallEmpty);
        }
        let ghost s0 = self.state;
        self.state.closed_hands[q] = h2;
        let mut ms = copy_melds(&self.state.melds[q]);
        let ghost ms0 = ms@;
        ms.push(m);
        proof {
            assert(ms@.drop_last() =~= ms0);
        }
        self.state.melds[q] = ms;
        let tail = self.state.core.num_drawn_tail;
        let core = StateCore {
            seq: self.state.core.seq + 1,
            actor: caller,
            num_drawn_head: self.state.core.num_drawn_head,
            num_drawn_tail: if is_kan {
                tail + 1
            } else {
                tail
            },
            draw: if is_kan {
                Some(self.begin.wall[135 - tail as usize])
            } else {
                None
            },
        };
        self.state.core = core;
        self.state.incoming_meld = Some(m);
        let analysis = analyze_hand(&h2);
        self.analysis[q] = analysis;
        proof {
            let s1 = self.state;
            assert forall|k: int| 0 <= k < 4 && k != q as int implies player_visible(s1, k)
                == player_visible(s0, k) by {
                assert(s1.closed_hands@[k] == s0.closed_hands@[k]);
                assert(s1.melds@[k] == s0.melds@[k]);
                assert(s1.discards@[k] == s0.discards@[k]);
            }
            assert(melds_own_total(s1.melds@[q as int]@) == melds_own_total(s0.melds@[q as int]@)
                + meld_own_tiles(m));
            assert(player_visible(s1, q as int) == player_visible(s0, q as int) - removed
                + meld_own_tiles(m));
            assert(meld_own_tiles(m) == removed);
            assert(spec_conserved(s1));
        }
        self.clear_ippatsu();
        Ok(core)
    }

    /// Commits a self-declared kan (ankan or kakan): the hand absorbs the
    /// draw, reveals the kan, and the actor draws a replacement tile.
    fn commit_self_kan(&mut self, t: Tile, is_ankan: bool) -> (r: Result<StateCore, ActionError>)
        requires
            old(self).wf(),
            t.wf(),
        ensures
            final(self).wf(),
            final(self).spec_begin() == old(self).spec_begin(),
            final(self).spec_end() == old(self).spec_end(),
            r matches Ok(c) ==> c.seq == old(self).spec_state().core.seq + 1
                && final(self).spec_state().core == c,
    {
        let p = self.state.core.actor.to_usize();
        if self.draws_remaining() < 1 || self.state.core.num_drawn_tail >= 8 {
            return Err(ActionError::WallEmpty);
        }
        let hand = self.state.closed_hands[p];
        let (h1, ok1) = merge_draw(&hand, self.state.core.draw);
        if !ok1 {
            return Err(ActionError::KanNotAvailable);
        }
        let ghost s0 = self.state;
        if is_ankan {
            if self.state.melds[p].len() >= 4 {
                return Err(ActionError::KanNotAvailable);
            }
            let ankan = match Ankan::from_hand(&h1, t) {
                Some(a) => a,
                None => {
                    return Err(ActionError::KanNotAvailable);
                },
            };
            let (h2, ok2) = remove_kind_exact(&h1, t, 4);
            if !ok2 {
                return Err(ActionError::KanNotAvailable);
            }
            let m = Meld::Ankan(ankan);
            self.state.closed_hands[p] = h2;
            let mut ms = copy_melds(&self.state.melds[p]);
            let ghost ms0 = ms@;
            ms.push(m);
            proof {
                assert(ms@.drop_last() =~= ms0);
            }
            self.state.melds[p] = ms;
            self.finish_self_kan(Ghost(s0), p, m, 4)
        } else {
            // find the pon to promote
            let ms_ref = &self.state.melds[p];
            let mut idx: usize = 0;
            let mut found = false;
            let mut i: usize = 0;
            while i < ms_ref.len()
                invariant
                    i <= ms_ref@.len(),
                    t.wf(),
                    self.wf(),
                    0 <= p < 4,
                    ms_ref == &self.spec_state().melds@[p as int],
                    found ==> idx < ms_ref@.len() && ms_ref@[idx as int] matches Meld::Pon(_),
                decreases ms_ref@.len() - i,
            {
                match ms_ref[i] {
                    Meld::Pon(pn) => {
                        if pn.called.normal_encoding() == t.normal_encoding() && !found {
                            idx = i;
                            found = true;
                        }
                    },
                    _ => {},
                }
                i += 1;
            }
            if !found {
                return Err(ActionError::KanNotAvailable);
            }
            let pon = match self.state.melds[p][idx] {
                Meld::Pon(pn) => pn,
                _ => {
                    return Err(ActionError::KanNotAvailable);
                },
            };
            // the added tile is the held copy: red if only the red is held
            let added = if h1.get(t) >= 1 {
                t
            } else if h1.get(t.to_red()) >= 1 {
                t.to_red()
            } else {
                return Err(ActionError::KanNotAvailable);
            };
            let kakan = match Kakan::from_pon_added(pon, added) {
                Some(k) => k,
                None => {
                    return Err(ActionError::KanNotAvailable);
                },
            };
            let (h2, ok2) = remove_one(&h1, added);
            if !ok2 {
                return Err(ActionError::KanNotAvailable);
            }
            let m = Meld::Kakan(kakan);
            self.state.closed_hands[p] = h2;
            proof {
                assert(self.state.melds@[p as int]@[idx as int] matches Meld::Pon(_));
            }
            let ms = promote_pon(&self.state.melds[p], idx, kakan);
            self.state.melds[p] = ms;
            self.finish_self_kan(Ghost(s0), p, m, 1)
        }
    }

    /// Shared tail of a self-kan commit: the replacement draw, the turn
    /// bookkeeping, and the cache refresh.
    fn finish_self_kan(&mut self, Ghost(s0): Ghost<State>, p: usize, m: Meld, removed: u8) -> (r:
        Result<StateCore, ActionError>)
        requires
            p < 4,
            m.wf(),
            old(self).begin_wf_only(),
            old(self).spec_state().wf(),
            state_bounds_except_melds(old(self).spec_state()),
            old(self).spec_analysis_ok(),
            // the kan has been applied to hands and melds; everything else
            // still matches the snapshot
            old(self).spec_state().core == s0.core,
            old(self).spec_state().discards == s0.discards,
            old(self).spec_state().riichi_flags == s0.riichi_flags,
            old(self).spec_state().furiten == s0.furiten,
            old(self).spec_state().incoming_meld == s0.incoming_meld,
            spec_conserved(s0),
            state_bounds(s0),
            sum_counts(old(self).spec_state().closed_hands@[p as int]@, 37) == sum_counts(
                s0.closed_hands@[p as int]@,
                37,
            ) + (if s0.core.draw is Some {
                1int
            } else {
                0int
            }) - removed,
            melds_own_total(old(self).spec_state().melds@[p as int]@) == melds_own_total(
                s0.melds@[p as int]@,
            ) + removed,
            old(self).spec_state().melds@[p as int]@.len() <= 4,
            forall|k: int|
                0 <= k < 4 && k != p as int ==> (#[trigger] old(self).spec_state().closed_hands@[k])
                    == s0.closed_hands@[k] && old(self).spec_state().melds@[k] == s0.melds@[k]
                    && old(self).spec_state().discards@[k] == s0.discards@[k],
            s0.core.num_drawn_tail < 8,
            s0.core.num_drawn_head + s0.core.num_drawn_tail < 122,
        ensures
            final(self).wf(),
            final(self).spec_begin() == old(self).spec_begin(),
            final(self).spec_end() == old(self).spec_end(),
            r matches Ok(c) ==> c.seq == old(self).spec_state().core.seq + 1
                && final(self).spec_state().core == c,
    {
        let tail = self.state.core.num_drawn_tail;
        let core = StateCore {
            seq: self.state.core.seq + 1,
            actor: self.state.core.actor,
            num_drawn_head: self.state.core.num_drawn_head,
            num_drawn_tail: tail + 1,
            draw: Some(self.begin.wall[135 - tail as usize]),
        };
        self.state.core = core;
        self.state.incoming_meld = Some(m);
        let h = self.state.closed_hands[p];
        let analysis = analyze_hand(&h);
        self.analysis[p] = analysis;
        proof {
            let s1 = self.state;
            assert forall|k: int| 0 <= k < 4 && k != p as int implies player_visible(s1, k)
                == player_visible(s0, k) by {
                assert(s1.closed_hands@[k] == s0.closed_hands@[k]);
                assert(s1.melds@[k] == s0.melds@[k]);
                assert(s1.discards@[k] == s0.discards@[k]);
            }
            assert(player_visible(s1, p as int) == player_visible(s0, p as int) + (
            if s0.core.draw is Some {
                1int
            } else {
                0int
            }));
            assert(spec_conserved(s1));
        }
        self.clear_ippatsu();
        Ok(core)
    }

    /// The begin data alone is valid.
    pub closed spec fn begin_wf_only(&self) -> bool {
        self.begin.wf()
    }

    /// The analyses and cached melds are valid.
    pub closed spec fn spec_analysis_ok(&self) -> bool {
        &&& self.analysis@.len() == 4
        &&& forall|p: int| 0 <= p < 4 ==> (#[trigger] self.analysis@[p]).wf()
        &&& self.reaction_melds@.len() == 4
        &&& forall|p: int|
            0 <= p < 4 ==> ((#[trigger] self.reaction_melds@[p]) matches Some(m) ==> m.wf())
        &&& self.action matches Some(a) ==> a.wf()
    }
}

/// A winner's summary is internally consistent: the points collected are
/// exactly the specified payout formula applied to its own fu and han.
pub open spec fn agari_consistent(a: AgariResult, b: RoundBegin, kind: AgariKind) -> bool {
    &&& a.points_won as int == spec_points_won(
        spec_base_points(a.fu as int, a.han as int),
        a.winner@ == b.round_id.kyoku as int % 4,
        kind,
        b.round_id.honba as int,
    )
    &&& 0 <= a.points_won <= 200000
}

/// Every winner listed in the conclusions satisfies the payout formula.
pub open spec fn agari_all_consistent(e: Option<RoundEnd>, b: RoundBegin, kind: AgariKind) -> bool {
    match e {
        Some(re) => forall|i: int|
            0 <= i < re.agari@.len() ==> agari_consistent(#[trigger] re.agari@[i], b, kind),
        None => true,
    }
}

/// Is the registered action a discard?
pub open spec fn is_discard_action(a: Option<Action>) -> bool {
    match a {
        Some(Action::Discard(_)) => true,
        _ => false,
    }
}

/// Is the registered action a self-draw win?
pub open spec fn is_tsumo_action(a: Option<Action>) -> bool {
    match a {
        Some(Action::TsumoAgari(_)) => true,
        _ => false,
    }
}

/// Is the registered action a kan declaration?
pub open spec fn is_kan_action(a: Option<Action>) -> bool {
    match a {
        Some(Action::Kakan(_)) => true,
        Some(Action::Ankan(_)) => true,
        _ => false,
    }
}

/// Did the round end with this result?
pub open spec fn ended_with(e: Option<RoundEnd>, res: ActionResult) -> bool {
    match e {
        Some(re) => re.result == res,
        None => false,
    }
}

/// An abort's conclusions: no winners, only standing riichi deposits move,
/// and the pot carries them forward.
pub open spec fn abort_end_ok(e: Option<RoundEnd>, s: State, b: RoundBegin) -> bool {
    match e {
        Some(re) => {
            &&& re.agari@.len() == 0
            &&& re.points_delta@.len() == 4
            &&& forall|q: int| 0 <= q < 4 ==> #[trigger] re.points_delta@[q] == abort_delta(s, q)
            &&& re.pot == spec_clamp_pot(b.pot as int) + 1000 * spec_riichi_count(s, 4)
        },
        None => false,
    }
}

/// Is the result one of the end-of-turn aborts a discard can drain into?
pub open spec fn is_drain_abort(res: ActionResult) -> bool {
    res == ActionResult::AbortFourWind || res == ActionResult::AbortFourRiichi || res
        == ActionResult::AbortFourKan || res == ActionResult::AbortNagashiMangan || res
        == ActionResult::AbortWallExhausted
}

/// Did some opponent of `actor` register a winning reaction?
pub open spec fn ron_registered(reactions: Seq<Option<Reaction>>, actor: int) -> bool {
    exists|q: int|
        0 <= q < 4 && q != actor && #[trigger] reactions[q] == Some(Reaction::RonAgari)
}

/// Is no reaction registered at all?
pub open spec fn no_reactions(reactions: Seq<Option<Reaction>>) -> bool {
    forall|q: int| 0 <= q < 4 ==> (#[trigger] reactions[q]) is None
}

impl Engine {
    /// Within the same round, resets the engine to continue from the given
    /// state. Forgets any pending action or reactions and rebuilds the
    /// wait caches.
    pub fn jump_to_state(&mut self, state: State)
        requires
            old(self).wf(),
            state.wf(),
            state_bounds(state),
            spec_conserved(state),
        ensures
            final(self).wf(),
            final(self).spec_state() == state,
            final(self).spec_begin() == old(self).spec_begin(),
            final(self).spec_action() is None,
            final(self).spec_end() is None,
    {
        let a0 = analyze_hand(&state.closed_hands[0]);
        let a1 = analyze_hand(&state.closed_hands[1]);
        let a2 = analyze_hand(&state.closed_hands[2]);
        let a3 = analyze_hand(&state.closed_hands[3]);
        self.state = state;
        self.action = None;
        self.reactions = [None, None, None, None];
        self.reaction_melds = [None, None, None, None];
        self.end = None;
        self.analysis = [a0, a1, a2, a3];
        proof {
            assert(self.analysis@[0] == a0 && self.analysis@[1] == a1 && self.analysis@[2] == a2
                && self.analysis@[3] == a3);
        }
    }

    /// Resolves the registered action and reactions into this turn's
    /// conclusion and evolves the state (or ends the round). The turn
    /// counter increases by exactly one whenever the round goes on.
    pub fn step(&mut self) -> (r: Result<GameStep, ActionError>)
        requires
            old(self).wf(),
        ensures
            final(self).wf(),
            final(self).spec_begin() == old(self).spec_begin(),
            spec_conserved(final(self).spec_state()),
            old(self).spec_action() is None ==> r == Err::<GameStep, ActionError>(
                ActionError::NotActionPhase,
            ),
            r matches Ok(gs) ==> (gs.next_state_core matches Some(c) ==> c.seq == old(
                self,
            ).spec_state().core.seq + 1 && final(self).spec_state().core == c),
            r matches Ok(gs) ==> (gs.next_state_core is None ==> ended_with(
                final(self).spec_end(),
                gs.action_result,
            )),
            // a passed discard joins the actor's stream
            (r matches Ok(gs) && gs.action_result == ActionResult::Pass && old(
                self,
            ).spec_action() matches Some(Action::Discard(_)))
                ==> final(self).spec_state().discards@[old(self).spec_state().core.actor@]@.len()
                == old(self).spec_state().discards@[old(self).spec_state().core.actor@]@.len() + 1,
            // a continuing turn leaves the round open
            r matches Ok(gs) ==> (gs.next_state_core is Some ==> final(self).spec_end() == old(
                self,
            ).spec_end()),
            // the nine-kinds abort always goes through, ending the round
            // with only the standing riichi deposits moving
            old(self).spec_action() == Some(Action::AbortNineKinds) ==> (r matches Ok(gs)
                && gs.action_result == ActionResult::AbortNineKinds && gs.next_state_core is None
                && ended_with(final(self).spec_end(), ActionResult::AbortNineKinds)
                && abort_end_ok(
                final(self).spec_end(),
                old(self).spec_state(),
                old(self).spec_begin(),
            )),
            // a registered self-draw win either scores or is refused for
            // want of a yaku
            is_tsumo_action(old(self).spec_action()) ==> ((r matches Ok(gs) && gs.action_result
                == ActionResult::TsumoAgari && gs.next_state_core is None && ended_with(
                final(self).spec_end(),
                ActionResult::TsumoAgari,
            ) && agari_all_consistent(
                final(self).spec_end(),
                old(self).spec_begin(),
                AgariKind::Tsumo,
            )) || r == Err::<GameStep, ActionError>(ActionError::TsumoWithoutYaku)),
            // an uncontested discard passes to the next seat, unless an
            // end-of-turn abort drains the round
            r matches Ok(gs) ==> ((is_discard_action(old(self).spec_action()) && no_reactions(
                old(self).spec_reactions(),
            )) ==> ((gs.action_result == ActionResult::Pass && gs.next_state_core is Some && final(self).spec_state().core.actor@ == (old(self).spec_state().core.actor@ + 1) % 4) || (
            is_drain_abort(gs.action_result) && gs.next_state_core is None))),
            // a registered winning reaction resolves to a ron (or the
            // multi-ron abort) and ends the round
            r matches Ok(gs) ==> ((ron_registered(
                old(self).spec_reactions(),
                old(self).spec_state().core.actor@,
            ) && !is_tsumo_action(old(self).spec_action()) && old(self).spec_action() != Some(
                Action::AbortNineKinds,
            )) ==> ((gs.action_result == ActionResult::RonAgari && agari_all_consistent(
                final(self).spec_end(),
                old(self).spec_begin(),
                AgariKind::Ron,
            ) || gs.action_result == ActionResult::AbortMultiRon) && gs.next_state_core is None
                && final(self).spec_end() is Some)),
            // a robbed kan is never committed: on a chankan the state is
            // exactly as it stood
            r matches Ok(gs) ==> ((is_kan_action(old(self).spec_action()) && gs.action_result
                == ActionResult::RonAgari) ==> final(self).spec_state() == old(
                self,
            ).spec_state()),
    {
        let action = match self.action {
            Some(a) => a,
            None => {
                return Err(ActionError::NotActionPhase);
            },
        };
        self.action = None;
        let actor = self.state.core.actor;
        let p = actor.to_usize();
        match action {
            Action::TsumoAgari(t) => {
                match self.score_win(actor, actor, t, AgariKind::Tsumo, action) {
                    Some(ag) => {
                        let mut winners: Vec<AgariResult> = Vec::new();
                        proof {
                            // the guard cannot fire: payouts stay far below it
                            assert(0 <= ag.points_won <= 200000);
                        }
                        let clamped = AgariResult {
                            points_won: if ag.points_won > 1000000 {
                                1000000
                            } else if ag.points_won < 0 {
                                0
                            } else {
                                ag.points_won
                            },
                            ..ag
                        };
                        proof {
                            assert(clamped == ag);
                        }
                        winners.push(clamped);
                        self.finish_agari(winners, ActionResult::TsumoAgari);
                        Ok(
                            GameStep {
                                actor,
                                action,
                                reactor_reaction: None,
                                action_result: ActionResult::TsumoAgari,
                                next_state_core: None,
                            },
                        )
                    },
                    None => Err(ActionError::TsumoWithoutYaku),
                }
            },
            Action::AbortNineKinds => {
                self.finish_abort(ActionResult::AbortNineKinds);
                Ok(
                    GameStep {
                        actor,
                        action,
                        reactor_reaction: None,
                        action_result: ActionResult::AbortNineKinds,
                        next_state_core: None,
                    },
                )
            },
            Action::Discard(d) => self.step_discard(actor, action, d),
            Action::Ankan(t) => self.step_self_kan(actor, action, t, true),
            Action::Kakan(t) => self.step_self_kan(actor, action, t, false),
        }
    }

    /// The winners among the registered reactions (in seat order from the
    /// actor's left), and the best meld call, if any.
    fn gather_reactions(&self, actor: Player) -> (r: (Vec<Player>, Option<(Player, Reaction)>))
        requires
            self.wf(),
            actor.wf(),
        ensures
            r.0@.len() <= 4,
            forall|i: int| 0 <= i < r.0@.len() ==> (#[trigger] r.0@[i]).wf(),
            r.1 matches Some(pr) ==> pr.0.wf() && pr.0@ != actor@,
            (forall|q: int| 0 <= q < 4 ==> (#[trigger] self.spec_reactions()[q]) is None) ==> (
            r.0@.len() == 0 && r.1 is None),
            (exists|q: int|
                0 <= q < 4 && q != actor@ && #[trigger] self.spec_reactions()[q] == Some(
                    Reaction::RonAgari,
                )) ==> r.0@.len() >= 1,
    {
        let mut rons: Vec<Player> = Vec::new();
        let mut best: Option<(Player, Reaction)> = None;
        let mut best_prio: u8 = 0;
        let mut off: u8 = 1;
        while off < 4
            invariant
                1 <= off <= 4,
                self.wf(),
                actor.wf(),
                rons@.len() < off,
                forall|i: int| 0 <= i < rons@.len() ==> (#[trigger] rons@[i]).wf(),
                best matches Some(pr) ==> pr.0.wf() && pr.0@ != actor@,
                (forall|qq: int| 0 <= qq < 4 ==> (#[trigger] self.spec_reactions()[qq]) is None)
                    ==> (rons@.len() == 0 && best is None),
                forall|o: int|
                    1 <= o < off ==> ((#[trigger] self.spec_reactions()[(actor@ + o) % 4]) == Some(
                        Reaction::RonAgari,
                    ) ==> rons@.len() >= 1),
            decreases 4 - off,
        {
            let q = actor.add(off);
            proof {
                assert(q@ != actor@);
                assert(q@ == (actor@ + off as int) % 4);
            }
            match self.reactions[q.to_usize()] {
                Some(Reaction::RonAgari) => {
                    rons.push(q);
                },
                Some(re) => {
                    let pr = re.priority();
                    if best.is_none() || pr > best_prio {
                        best = Some((q, re));
                        best_prio = pr;
                    }
                },
                None => {},
            }
            off += 1;
        }
        proof {
            if exists|q: int|
                0 <= q < 4 && q != actor@ && #[trigger] self.spec_reactions()[q] == Some(
                    Reaction::RonAgari,
                ) {
                let q = choose|q: int|
                    0 <= q < 4 && q != actor@ && #[trigger] self.spec_reactions()[q] == Some(
                        Reaction::RonAgari,
                    );
                let o = if q > actor@ {
                    q - actor@
                } else {
                    q + 4 - actor@
                };
                assert(1 <= o < 4);
                assert((actor@ + o) % 4 == q);
                assert(rons@.len() >= 1);
            }
        }
        (rons, best)
    }

    /// Resolves and commits a discard turn.
    fn step_discard(&mut self, actor: Player, action: Action, d: Discard) -> (r: Result<
        GameStep,
        ActionError,
    >)
        requires
            old(self).wf(),
            actor.wf(),
            action.wf(),
            d.wf(),
            action == Action::Discard(d),
            actor == old(self).spec_state().core.actor,
        ensures
            final(self).wf(),
            final(self).spec_begin() == old(self).spec_begin(),
            r matches Ok(gs) ==> (gs.next_state_core matches Some(c) ==> c.seq == old(
                self,
            ).spec_state().core.seq + 1 && final(self).spec_state().core == c),
            r matches Ok(gs) ==> (gs.next_state_core is None ==> ended_with(
                final(self).spec_end(),
                gs.action_result,
            )),
            // a passed discard joins the actor's stream
            (r matches Ok(gs) && gs.action_result == ActionResult::Pass)
                ==> final(self).spec_state().discards@[actor@]@.len() == old(
                self,
            ).spec_state().discards@[actor@]@.len() + 1,
            // a continuing turn leaves the round open
            r matches Ok(gs) ==> (gs.next_state_core is Some ==> final(self).spec_end() == old(
                self,
            ).spec_end()),
            // with no reactions registered the turn passes or the round
            // drains into an end-of-turn abort
            r matches Ok(gs) ==> (no_reactions(old(self).spec_reactions()) ==> ((gs.action_result
                == ActionResult::Pass && gs.next_state_core is Some
                && final(self).spec_state().core.actor@ == (old(self).spec_state().core.actor@ + 1)
                % 4) || (is_drain_abort(gs.action_result) && gs.next_state_core is None))),
            // a registered winning reaction ends the round
            r matches Ok(gs) ==> (ron_registered(old(self).spec_reactions(), actor@) ==> ((
            gs.action_result == ActionResult::RonAgari && agari_all_consistent(
                final(self).spec_end(),
                old(self).spec_begin(),
                AgariKind::Ron,
            ) || gs.action_result == ActionResult::AbortMultiRon) && gs.next_state_core is None
                && final(self).spec_end() is Some)),
    {
        let (rons, best) = self.gather_reactions(actor);
        let limit: usize = if self.begin.ruleset.allow_triple_ron {
            3
        } else if self.begin.ruleset.allow_double_ron {
            2
        } else {
            1
        };
        if rons.len() > limit {
            self.finish_abort(ActionResult::AbortMultiRon);
            return Ok(
                GameStep {
                    actor,
                    action,
                    reactor_reaction: None,
                    action_result: ActionResult::AbortMultiRon,
                    next_state_core: None,
                },
            );
        }
        if rons.len() >= 1 {
            return self.step_ron(actor, action, d.tile, rons);
        }
        if let Some((caller, reaction)) = best {
            // the caller takes the discard
            let m = match self.reaction_melds[caller.to_usize()] {
                Some(m) => m,
                None => {
                    return Err(ActionError::NotActionPhase);
                },
            };
            if !self.commit_discard(d, caller) {
                return Err(ActionError::TileNotInHand);
            }
            let kind = match m {
                Meld::Chii(_) => ActionResult::Chii,
                Meld::Pon(_) => ActionResult::Pon,
                _ => ActionResult::Daiminkan,
            };
            let core = match self.commit_call(caller, m) {
                Ok(c) => c,
                Err(e) => {
                    return Err(e);
                },
            };
            // a big open kan may complete the fourth kan
            if matches!(kind, ActionResult::Daiminkan) {
                if let Some(ab) = self.four_kan_abort() {
                    self.finish_abort(ab);
                    return Ok(
                        GameStep {
                            actor,
                            action,
                            reactor_reaction: Some((caller, reaction)),
                            action_result: ab,
                            next_state_core: None,
                        },
                    );
                }
            }
            return Ok(
                GameStep {
                    actor,
                    action,
                    reactor_reaction: Some((caller, reaction)),
                    action_result: kind,
                    next_state_core: Some(core),
                },
            );
        }
        // nobody reacted: commit and check the end-of-turn aborts
        if !self.commit_discard(d, actor) {
            return Err(ActionError::TileNotInHand);
        }
        if let Some(ab) = self.discard_abort() {
            self.finish_abort(ab);
            return Ok(
                GameStep {
                    actor,
                    action,
                    reactor_reaction: None,
                    action_result: ab,
                    next_state_core: None,
                },
            );
        }
        let next = actor.add(1);
        let core = self.advance_turn(next);
        Ok(
            GameStep {
                actor,
                action,
                reactor_reaction: None,
                action_result: ActionResult::Pass,
                next_state_core: Some(core),
            },
        )
    }

    /// Ends the round by one or more rons on the actor's tile.
    fn step_ron(&mut self, actor: Player, action: Action, tile: Tile, rons: Vec<Player>) -> (r:
        Result<GameStep, ActionError>)
        requires
            old(self).wf(),
            actor.wf(),
            action.wf(),
            tile.wf(),
            rons@.len() >= 1,
            forall|i: int| 0 <= i < rons@.len() ==> (#[trigger] rons@[i]).wf(),
        ensures
            final(self).wf(),
            final(self).spec_begin() == old(self).spec_begin(),
            final(self).spec_state() == old(self).spec_state(),
            r matches Ok(gs) ==> gs.next_state_core is None && gs.action_result
                == ActionResult::RonAgari && ended_with(
                final(self).spec_end(),
                ActionResult::RonAgari,
            ) && agari_all_consistent(
                final(self).spec_end(),
                old(self).spec_begin(),
                AgariKind::Ron,
            ) && (final(self).spec_end() matches Some(re) && forall|i: int|
                0 <= i < re.agari@.len() ==> (#[trigger] re.agari@[i]).contributor == actor),
    {
        let mut winners: Vec<AgariResult> = Vec::new();
        let mut i: usize = 0;
        while i < rons.len()
            invariant
                self.wf(),
                i <= rons@.len(),
                actor.wf(),
                action.wf(),
                tile.wf(),
                forall|k: int| 0 <= k < rons@.len() ==> (#[trigger] rons@[k]).wf(),
                winners@.len() <= i,
                forall|k: int|
                    0 <= k < winners@.len() ==> (#[trigger] winners@[k]).winner.wf()
                        && winners@[k].contributor.wf() && 0 <= winners@[k].points_won <= 1000000
                        && winners@[k].contributor == actor && agari_consistent(
                        winners@[k],
                        self.spec_begin(),
                        AgariKind::Ron,
                    ),
            decreases rons@.len() - i,
        {
            let w = rons[i];
            match self.score_win(w, actor, tile, AgariKind::Ron, action) {
                Some(ag) => {
                    proof {
                        // the guard cannot fire: payouts stay far below it
                        assert(0 <= ag.points_won <= 200000);
                    }
                    let clamped = AgariResult {
                        points_won: if ag.points_won > 1000000 {
                            1000000
                        } else if ag.points_won < 0 {
                            0
                        } else {
                            ag.points_won
                        },
                        ..ag
                    };
                    proof {
                        assert(clamped == ag);
                    }
                    winners.push(clamped);
                },
                None => {},
            }
            i += 1;
        }
        if winners.len() > 4 {
            return Err(ActionError::NotActionPhase);
        }
        let first = rons[0];
        self.finish_agari(winners, ActionResult::RonAgari);
        Ok(
            GameStep {
                actor,
                action,
                reactor_reaction: Some((first, Reaction::RonAgari)),
                action_result: ActionResult::RonAgari,
                next_state_core: None,
            },
        )
    }

    /// Resolves a kan declaration: it may be robbed by ron (the kan is then
    /// never committed), otherwise it is revealed and a replacement drawn.
    fn step_self_kan(&mut self, actor: Player, action: Action, t: Tile, is_ankan: bool) -> (r:
        Result<GameStep, ActionError>)
        requires
            old(self).wf(),
            actor.wf(),
            action.wf(),
            t.wf(),
        ensures
            final(self).wf(),
            final(self).spec_begin() == old(self).spec_begin(),
            r matches Ok(gs) ==> (gs.next_state_core matches Some(c) ==> c.seq == old(
                self,
            ).spec_state().core.seq + 1 && final(self).spec_state().core == c),
            r matches Ok(gs) ==> (gs.next_state_core is None ==> ended_with(
                final(self).spec_end(),
                gs.action_result,
            )),
            // a continuing turn leaves the round open
            r matches Ok(gs) ==> (gs.next_state_core is Some ==> final(self).spec_end() == old(
                self,
            ).spec_end()),
            // a robbed kan is never committed: the state is untouched
            r matches Ok(gs) ==> (gs.action_result == ActionResult::RonAgari
                ==> final(self).spec_state() == old(self).spec_state()),
            // a registered winning reaction ends the round
            r matches Ok(gs) ==> (ron_registered(old(self).spec_reactions(), actor@) ==> ((
            gs.action_result == ActionResult::RonAgari && agari_all_consistent(
                final(self).spec_end(),
                old(self).spec_begin(),
                AgariKind::Ron,
            ) || gs.action_result == ActionResult::AbortMultiRon) && gs.next_state_core is None
                && final(self).spec_end() is Some)),
    {
        let (rons, _) = self.gather_reactions(actor);
        if rons.len() >= 1 {
            // chankan: the kan is robbed and never committed
            return self.step_ron(actor, action, t, rons);
        }
        let core = match self.commit_self_kan(t, is_ankan) {
            Ok(c) => c,
            Err(e) => {
                return Err(e);
            },
        };
        if let Some(ab) = self.four_kan_abort() {
            self.finish_abort(ab);
            return Ok(
                GameStep {
                    actor,
                    action,
                    reactor_reaction: None,
                    action_result: ab,
                    next_state_core: None,
                },
            );
        }
        Ok(
            GameStep {
                actor,
                action,
                reactor_reaction: None,
                action_result: ActionResult::Pass,
                next_state_core: Some(core),
            },
        )
    }
}

/// The bookkeeping bounds with the hand sums left open (used mid-commit).
pub open spec fn state_bounds_except_melds(s: State) -> bool {
    &&& 52 <= s.core.num_drawn_head <= 122
    &&& s.core.num_drawn_tail <= 8
    &&& s.core.num_drawn_head + s.core.num_drawn_tail <= 122
    &&& forall|p: int| 0 <= p < 4 ==> (#[trigger] s.melds@[p]@).len() <= 4
    &&& s.core.seq <= s.core.num_drawn_head + s.core.num_drawn_tail + melds_len_total(s)
    &&& s.closed_hands@.len() == 4
    &&& s.melds@.len() == 4
    &&& s.discards@.len() == 4
    &&& s.riichi_flags@.len() == 4
    &&& s.furiten@.len() == 4
}

/// Deals the 13 starting tiles of player `p` from the wall.
fn deal_hand(begin: &RoundBegin, p: usize) -> (r: TileSet37)
    requires
        begin.wf(),
        p < 4,
        forall|e: int| 0 <= e < 34 ==> #[trigger] count_norm(begin.wall@, e) == 4,
    ensures
        r.wf(),
        sum_counts(r@, 37) == 13,
        forall|e: int|
            0 <= e < 37 ==> #[trigger] r@[e] == crate::tile_set::count_enc(
                begin.wall@.subrange(13 * p as int, 13 * p + 13),
                e,
            ),
{
    let mut tiles: Vec<Tile> = Vec::new();
    let mut i: usize = 0;
    while i < 13
        invariant
            i <= 13,
            p < 4,
            begin.wf(),
            tiles@ =~= begin.wall@.subrange(13 * p as int, 13 * p + i as int),
        decreases 13 - i,
    {
        let t = begin.wall[13 * p + i];
        proof {
            assert(begin.wall@.subrange(13 * p as int, 13 * p + i as int).push(
                begin.wall@[13 * p + i],
            ) =~= begin.wall@.subrange(13 * p as int, 13 * p + i + 1));
        }
        tiles.push(t);
        i += 1;
    }
    proof {
        assert forall|k: int| 0 <= k < tiles@.len() implies (#[trigger] tiles@[k]).wf() by {
            assert(tiles@[k] == begin.wall@[13 * p + k]);
        }
    }
    let hand = TileSet37::from_tiles(tiles.as_slice());
    proof {
        let w = begin.wall@;
        let d = tiles@;
        let pre = w.subrange(0, 13 * p as int);
        let post = w.subrange(13 * p + 13, 136);
        assert(w =~= pre + d + post);
        assert forall|e: int| 0 <= e < 34 implies count_norm(d, e) <= 4 by {
            lemma_count_norm_concat(pre + d, post, e);
            lemma_count_norm_concat(pre, d, e);
            lemma_count_norm_le_len(pre, e);
            lemma_count_norm_le_len(post, e);
            assert(count_norm(w, e) == 4);
        }
        assert forall|e: int| 0 <= e < 37 implies hand@[e] <= 4 by {
            lemma_count_norm_split(d, spec_normal(e));
            lemma_count_enc_le_len(d, e);
            lemma_count_enc_le_len(d, spec_normal(e));
            lemma_count_enc_le_len(d, crate::tile::spec_to_red(spec_normal(e)));
            assert(count_norm(d, spec_normal(e)) <= 4);
        }
        assert(hand@[4] + hand@[34] <= 4) by {
            lemma_count_norm_split(d, 4);
        }
        assert(hand@[13] + hand@[35] <= 4) by {
            lemma_count_norm_split(d, 13);
        }
        assert(hand@[22] + hand@[36] <= 4) by {
            lemma_count_norm_split(d, 22);
        }
        lemma_total_is_len(hand@, d);
    }
    hand
}

} // verus!
