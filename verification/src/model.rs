//! Model types of one round: actions, reactions, their results, discards,
//! riichi state, the round configuration, and the evolving round state.

use vstd::prelude::*;

use crate::tile::{Tile, spec_digit_char, spec_num, spec_suit_char};
use crate::tile_set::TileSet37;
use crate::player::Player;
use crate::meld::Meld;

verus! {

/// A discarded tile with its context. Doubles as the payload of
/// [`Action::Discard`] and as an entry of a player's discard stream.
#[derive(Clone, Copy, Debug, PartialEq, Eq, Structural, Hash)]
pub struct Discard {
    /// The discarded tile.
    pub tile: Tile,
    /// In the discard stream: who called the tile away; the discarder's own
    /// seat when nobody did. Ignored inside an action.
    pub called_by: Player,
    /// Whether this discard declares riichi.
    pub declares_riichi: bool,
    /// Whether the tile was discarded straight from the draw.
    pub is_tsumogiri: bool,
}

impl Discard {
    /// Validity of the embedded tile and seat.
    pub open spec fn wf(self) -> bool {
        self.tile.wf() && self.called_by.wf()
    }

    /// A plain discard of `tile` (no riichi, not from the draw).
    pub fn new(tile: Tile) -> (r: Discard)
        ensures
            r.tile == tile,
            r.called_by@ == 0,
            !r.declares_riichi,
            !r.is_tsumogiri,
    {
        Discard { tile, called_by: Player::new(0), declares_riichi: false, is_tsumogiri: false }
    }

    /// Renders the discard: `RIICHI!(5m )` for a declaration, otherwise
    /// `discard(5m )`, with `*` in place of the space when the tile came
    /// straight from the draw.
    pub fn to_string(self) -> (r: String)
        requires
            self.tile.wf(),
        ensures
            r@ =~= spec_discard_str(self),
    {
        proof {
            reveal_strlit("RIICHI!(");
            reveal_strlit("discard(");
            reveal_strlit("*");
            reveal_strlit(" ");
            reveal_strlit(")");
        }
        let mut out = String::new();
        if self.declares_riichi {
            out.append("RIICHI!(");
        } else {
            out.append("discard(");
        }
        let ts = self.tile.to_string();
        out.append(ts.as_str());
        if self.is_tsumogiri {
            out.append("*");
        } else {
            out.append(" ");
        }
        out.append(")");
        out
    }
}

/// The glyph of a discard entry.
pub open spec fn spec_discard_str(d: Discard) -> Seq<char> {
    (if d.declares_riichi {
        "RIICHI!("@
    } else {
        "discard("@
    }) + seq![spec_digit_char(spec_num(d.tile@)), spec_suit_char(d.tile@)] + (if d.is_tsumogiri {
        seq!['*']
    } else {
        seq![' ']
    }) + seq![')']
}

/// Action by the in-turn player.
#[derive(Clone, Copy, Debug, PartialEq, Eq, Structural, Hash)]
pub enum Action {
    /// Discard a tile.
    Discard(Discard),
    /// Declare a closed kan (four in the closed hand).
    Ankan(Tile),
    /// Promote an existing pon with the fourth tile from the hand.
    Kakan(Tile),
    /// Win by self-draw on the given tile.
    TsumoAgari(Tile),
    /// Abort the round by nine kinds of terminals on the first turn.
    AbortNineKinds,
}

impl Action {
    /// Validity of the embedded tile.
    pub open spec fn wf(self) -> bool {
        match self {
            Action::Discard(d) => d.wf(),
            Action::Ankan(t) => t.wf(),
            Action::Kakan(t) => t.wf(),
            Action::TsumoAgari(t) => t.wf(),
            Action::AbortNineKinds => true,
        }
    }

    /// The tile the action concerns, if any.
    pub fn tile(self) -> (r: Option<Tile>)
        ensures
            r == match self {
                Action::Discard(d) => Some(d.tile),
                Action::Ankan(t) => Some(t),
                Action::Kakan(t) => Some(t),
                Action::TsumoAgari(t) => Some(t),
                Action::AbortNineKinds => None::<Tile>,
            },
    {
        match self {
            Action::Discard(d) => Some(d.tile),
            Action::Ankan(t) => Some(t),
            Action::Kakan(t) => Some(t),
            Action::TsumoAgari(t) => Some(t),
            Action::AbortNineKinds => None,
        }
    }

    /// Does the action end the round by itself?
    pub fn is_terminal(self) -> (r: bool)
        ensures
            r == (self matches Action::TsumoAgari(_) || self == Action::AbortNineKinds),
    {
        match self {
            Action::TsumoAgari(_) | Action::AbortNineKinds => true,
            _ => false,
        }
    }

    /// Is the action a kan declaration (robbable for chankan)?
    pub fn is_kan(self) -> (r: bool)
        ensures
            r == (self matches Action::Ankan(_) || self matches Action::Kakan(_)),
    {
        match self {
            Action::Ankan(_) | Action::Kakan(_) => true,
            _ => false,
        }
    }
}

/// Reaction from an out-of-turn player. Declared in priority order:
/// chii < pon < daiminkan < ron.
#[derive(Clone, Copy, Debug, PartialEq, Eq, Structural, Hash)]
pub enum Reaction {
    /// Call the discard with these two own tiles to form a run.
    Chii(Tile, Tile),
    /// Call the discard with these two own tiles to form a triplet.
    Pon(Tile, Tile),
    /// Call the discard with three own tiles to form an open kan.
    Daiminkan,
    /// Win on the discarded (or kan'd) tile.
    RonAgari,
}

impl Reaction {
    /// Validity of the embedded tiles.
    pub open spec fn wf(self) -> bool {
        match self {
            Reaction::Chii(a, b) => a.wf() && b.wf(),
            Reaction::Pon(a, b) => a.wf() && b.wf(),
            Reaction::Daiminkan => true,
            Reaction::RonAgari => true,
        }
    }

    /// Resolution priority: ron beats daiminkan beats pon beats chii.
    pub open spec fn spec_priority(self) -> int {
        match self {
            Reaction::Chii(_, _) => 0,
            Reaction::Pon(_, _) => 1,
            Reaction::Daiminkan => 2,
            Reaction::RonAgari => 3,
        }
    }

    /// Resolution priority: ron beats daiminkan beats pon beats chii.
    pub fn priority(self) -> (r: u8)
        ensures
            r as int == self.spec_priority(),
    {
        match self {
            Reaction::Chii(_, _) => 0,
            Reaction::Pon(_, _) => 1,
            Reaction::Daiminkan => 2,
            Reaction::RonAgari => 3,
        }
    }
}

/// Conclusion of one action-reaction cycle.
#[derive(Clone, Copy, Debug, PartialEq, Eq, Structural, Hash)]
pub enum ActionResult {
    /// The action stood without any reaction.
    Pass,
    /// A chii was called on the discard.
    Chii,
    /// A pon was called on the discard.
    Pon,
    /// A daiminkan was called on the discard.
    Daiminkan,
    /// At least one player won by steal.
    RonAgari,
    /// The in-turn player won by self-draw.
    TsumoAgari,
    /// Aborted: nine kinds of terminals on the first turn.
    AbortNineKinds,
    /// Aborted: the live wall is exhausted.
    AbortWallExhausted,
    /// Aborted: wall exhausted with a pure terminal/honor discard stream.
    AbortNagashiMangan,
    /// Aborted: four kans by more than one player (or an attempted fifth).
    AbortFourKan,
    /// Aborted: the first four discards were the same wind, uninterrupted.
    AbortFourWind,
    /// Aborted: all four players are under riichi.
    AbortFourRiichi,
    /// Aborted: too many simultaneous ron declarations.
    AbortMultiRon,
}

impl ActionResult {
    /// Did a meld call conclude the turn?
    pub fn is_meld(self) -> (r: bool)
        ensures
            r == (self == ActionResult::Chii || self == ActionResult::Pon || self
                == ActionResult::Daiminkan),
    {
        match self {
            ActionResult::Chii | ActionResult::Pon | ActionResult::Daiminkan => true,
            _ => false,
        }
    }

    /// Did somebody win?
    pub fn is_agari(self) -> (r: bool)
        ensures
            r == (self == ActionResult::TsumoAgari || self == ActionResult::RonAgari),
    {
        match self {
            ActionResult::TsumoAgari | ActionResult::RonAgari => true,
            _ => false,
        }
    }

    /// Was the round aborted?
    pub fn is_abort(self) -> (r: bool)
        ensures
            r == (self == ActionResult::AbortNineKinds || self == ActionResult::AbortWallExhausted
                || self == ActionResult::AbortNagashiMangan || self == ActionResult::AbortFourKan
                || self == ActionResult::AbortFourWind || self == ActionResult::AbortFourRiichi
                || self == ActionResult::AbortMultiRon),
    {
        match self {
            ActionResult::AbortNineKinds
            | ActionResult::AbortWallExhausted
            | ActionResult::AbortNagashiMangan
            | ActionResult::AbortFourKan
            | ActionResult::AbortFourWind
            | ActionResult::AbortFourRiichi
            | ActionResult::AbortMultiRon => true,
            _ => false,
        }
    }

    /// Does the round end on this result?
    pub fn is_terminal(self) -> (r: bool)
        ensures
            r == (self == ActionResult::TsumoAgari || self == ActionResult::RonAgari || self
                == ActionResult::AbortNineKinds || self == ActionResult::AbortWallExhausted || self
                == ActionResult::AbortNagashiMangan || self == ActionResult::AbortFourKan || self
                == ActionResult::AbortFourWind || self == ActionResult::AbortFourRiichi || self
                == ActionResult::AbortMultiRon),
    {
        self.is_agari() || self.is_abort()
    }
}

/// How a hand was won.
#[derive(Clone, Copy, Debug, PartialEq, Eq, Structural, Hash)]
pub enum AgariKind {
    /// By self-draw.
    Tsumo,
    /// By steal.
    Ron,
}

/// Per-player riichi state.
#[derive(Clone, Copy, Debug, PartialEq, Eq, Structural, Hash, Default)]
pub struct RiichiFlags {
    /// Riichi has been declared and its discard was not called away.
    pub is_active: bool,
    /// The declaration fell on the player's very first un-interrupted turn.
    pub is_double: bool,
    /// No turn has completed since the declaration (one-shot window).
    pub is_ippatsu: bool,
}

impl RiichiFlags {
    /// No riichi declared.
    pub fn none() -> (r: RiichiFlags)
        ensures
            !r.is_active && !r.is_double && !r.is_ippatsu,
    {
        RiichiFlags { is_active: false, is_double: false, is_ippatsu: false }
    }
}

/// Per-player furiten state beyond the own-discard check.
#[derive(Clone, Copy, Debug, PartialEq, Eq, Structural, Hash, Default)]
pub struct FuritenFlags {
    /// Passed on a winnable tile since the last own draw.
    pub temporary: bool,
    /// Passed on a winnable tile while under riichi: lasts the round.
    pub permanent: bool,
}

impl FuritenFlags {
    /// No missed win.
    pub fn none() -> (r: FuritenFlags)
        ensures
            !r.temporary && !r.permanent,
    {
        FuritenFlags { temporary: false, permanent: false }
    }
}

/// The compact, always-copied core of a round state.
#[derive(Clone, Copy, Debug, PartialEq, Eq, Structural, Hash)]
pub struct StateCore {
    /// Turn counter, starting at 0; increases with every `step`.
    pub seq: u32,
    /// The in-turn player.
    pub actor: Player,
    /// Number of tiles taken from the head of the wall (deal included), so
    /// 53 right after the deal and the dealer's first draw.
    pub num_drawn_head: u8,
    /// Number of kan replacement tiles taken from the tail.
    pub num_drawn_tail: u8,
    /// The tile just drawn by the actor, if any.
    pub draw: Option<Tile>,
}

/// Identifies the round within a game.
#[derive(Clone, Copy, Debug, PartialEq, Eq, Structural, Hash)]
pub struct RoundId {
    /// Zero-based round number: east 1 is 0; the dealer is `kyoku % 4`.
    pub kyoku: u8,
    /// Bonus counter carried over dealer repeats and aborts.
    pub honba: u8,
}

impl RoundId {
    /// The dealer of this round.
    pub fn button(self) -> (r: Player)
        ensures
            r@ == self.kyoku as int % 4,
            r.wf(),
    {
        Player::new(self.kyoku)
    }

    /// The prevailing wind: 0 = E, 1 = S, 2 = W, 3 = N.
    pub fn prevailing_wind(self) -> (r: u8)
        ensures
            r as int == (self.kyoku as int / 4) % 4,
    {
        (self.kyoku / 4) % 4
    }

    /// The seat wind of `p` in this round: 0 = E for the dealer.
    pub fn self_wind_for_player(self, p: Player) -> (r: u8)
        requires
            p.wf(),
        ensures
            r as int == (p@ + 4 - self.kyoku as int % 4) % 4,
            r < 4,
    {
        (p.to_u8() + 4 - self.kyoku % 4) % 4
    }
}

/// Rule configuration for a round.
#[derive(Clone, Copy, Debug, PartialEq, Eq, Structural, Hash)]
pub struct Ruleset {
    /// Red fives per suit: 0, 1 or 3 in total per the standard variants.
    pub num_reds: u8,
    /// Whether an open hand may win on all-simples alone.
    pub allow_kuitan: bool,
    /// Whether two players may ron the same tile.
    pub allow_double_ron: bool,
    /// Whether three players may ron the same tile; when not, a triple ron
    /// aborts the round.
    pub allow_triple_ron: bool,
    /// The deposit a riichi declaration places in the pot.
    pub riichi_deposit_points: u32,
}

impl Ruleset {
    /// The common default: one red five per suit, open tanyao allowed,
    /// double ron allowed, triple ron aborts, 1000-point deposits.
    pub fn standard() -> (r: Ruleset)
        ensures
            r.num_reds == 3,
            r.allow_kuitan,
            r.allow_double_ron,
            !r.allow_triple_ron,
            r.riichi_deposit_points == 1000,
    {
        Ruleset {
            num_reds: 3,
            allow_kuitan: true,
            allow_double_ron: true,
            allow_triple_ron: false,
            riichi_deposit_points: 1000,
        }
    }
}

/// Everything fixed at the start of a round.
pub struct RoundBegin {
    /// The rule configuration.
    pub ruleset: Ruleset,
    /// Which round this is.
    pub round_id: RoundId,
    /// The full 136-tile wall in dealing order.
    pub wall: [Tile; 136],
    /// Riichi deposits carried over from aborted rounds.
    pub pot: i32,
    /// Each player's points at the start of the round.
    pub points: [i32; 4],
}

impl RoundBegin {
    /// Validity: every wall tile is a real tile.
    pub open spec fn wf(self) -> bool {
        forall|i: int| 0 <= i < 136 ==> (#[trigger] self.wall@[i]).wf()
    }
}

/// The evolving state of one round.
pub struct State {
    /// Turn bookkeeping.
    pub core: StateCore,
    /// Each player's concealed tiles.
    pub closed_hands: [TileSet37; 4],
    /// Each player's open (or closed-kan) melds, in call order.
    pub melds: [Vec<Meld>; 4],
    /// Each player's discard stream, in order.
    pub discards: [Vec<Discard>; 4],
    /// Each player's riichi state.
    pub riichi_flags: [RiichiFlags; 4],
    /// Each player's missed-win furiten state.
    pub furiten: [FuritenFlags; 4],
    /// The meld formed this turn, if any (drives the rinshan yaku).
    pub incoming_meld: Option<Meld>,
}

impl State {
    /// Validity of all parts.
    pub open spec fn wf(self) -> bool {
        &&& self.core.actor.wf()
        &&& forall|p: int| 0 <= p < 4 ==> (#[trigger] self.closed_hands@[p]).wf()
        &&& forall|p: int, i: int|
            0 <= p < 4 && 0 <= i < self.melds@[p]@.len() ==> (#[trigger] self.melds@[p]@[i]).wf()
        &&& forall|p: int, i: int|
            0 <= p < 4 && 0 <= i < self.discards@[p]@.len() ==> (
            #[trigger] self.discards@[p]@[i]).wf()
        &&& self.incoming_meld matches Some(m) ==> m.wf()
        &&& self.core.draw matches Some(t) ==> t.wf()
    }
}

/// What one call of `step` did.
pub struct GameStep {
    /// The player who took the action.
    pub actor: Player,
    /// The action taken.
    pub action: Action,
    /// The winning reaction, if one was chosen.
    pub reactor_reaction: Option<(Player, Reaction)>,
    /// The resolved outcome of the turn.
    pub action_result: ActionResult,
    /// The core of the next state; `None` when the round ended.
    pub next_state_core: Option<StateCore>,
}

/// End-of-round conclusions.
pub struct RoundEnd {
    /// The terminal result that ended the round.
    pub result: ActionResult,
    /// Point gain or loss per player, deposits and penalties included.
    pub points_delta: [i32; 4],
    /// The pot after the round: 0 when won, carried forward when aborted.
    pub pot: i32,
    /// Each player's points after applying the deltas.
    pub points: [i32; 4],
    /// The winners (none on an abort), with fu, han and base points each.
    pub agari: Vec<AgariResult>,
}

/// One winner's scoring summary.
#[derive(Clone, Copy, Debug, PartialEq, Eq, Structural, Hash)]
pub struct AgariResult {
    /// The winning player.
    pub winner: Player,
    /// Who dealt in; the winner's own seat on a self-draw.
    pub contributor: Player,
    /// Fu (the additive score unit), already rounded up.
    pub fu: u8,
    /// Han (the multiplicative score unit); yakuman counted as 13 each.
    pub han: u8,
    /// The points the winner collects, honba and pot included.
    pub points_won: i32,
}

/// Errors from `register_action`.
#[derive(Clone, Copy, Debug, PartialEq, Eq, Structural, Hash)]
pub enum ActionError {
    /// The discarded (or kan'd, or winning) tile is not in the closed hand.
    TileNotInHand,
    /// Riichi requires a closed hand.
    NotClosedForRiichi,
    /// Riichi requires a waiting hand after the discard.
    NoWaitAfterDiscard,
    /// Riichi requires at least the deposit in points.
    InsufficientPointsForRiichi,
    /// Riichi requires enough wall left for one more draw around.
    InsufficientDrawsForRiichi,
    /// The declared kan is not available.
    KanNotAvailable,
    /// An ankan under riichi must not change the waiting tiles.
    RiichiForbidsKanChangingWait,
    /// Nine-kinds abort needs the first uninterrupted turn and nine kinds.
    NineKindsNotEligible,
    /// The declared self-draw does not win, or wins without any yaku.
    TsumoWithoutYaku,
    /// No tile is left to draw.
    WallEmpty,
    /// The action was registered out of order.
    NotActionPhase,
}

/// Errors from `register_reaction`.
#[derive(Clone, Copy, Debug, PartialEq, Eq, Structural, Hash)]
pub enum ReactionError {
    /// A chii may only come from the next player downstream.
    NotFromCorrectPlayer,
    /// The named tiles are not in the reactor's closed hand.
    TilesNotInHand,
    /// The reaction does not apply to the registered action.
    DoesNotCompleteHand,
    /// The reactor is furiten and may not ron.
    Furiten,
    /// The hand would win without any yaku.
    RonWithoutYaku,
    /// The declared kan is not available.
    KanNotAvailable,
    /// No action to react to.
    NoAction,
}

} // verus!
