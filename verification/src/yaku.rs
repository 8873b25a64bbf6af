//! Scoring patterns (yaku): the standard set, and one detector per family.
//!
//! Each detector appends its findings to a [`YakuBuilder`]; a han value of
//! -1 marks a yakuman. The two entry points, [`detect_yakus_for_regular`]
//! and [`detect_yakus_for_irregular`], run every detector that applies to
//! the given kind of winning hand.

use vstd::prelude::*;

use crate::tile::{Tile, spec_num, spec_suit};
use crate::tile_set::TileSet37;
use crate::player::Player;
use crate::hand_group::HandGroup;
use crate::meld::Meld;
use crate::model::{Action, AgariKind, RiichiFlags, RoundId};
use crate::decomp::{IrregularWait, RegularWait, WaitingKind, groups_hist};
use crate::wall::MAX_NUM_DRAWS;

verus! {

/// The standard scoring patterns.
#[derive(Clone, Copy, Debug, PartialEq, Eq, Structural, Hash)]
pub enum Yaku {
    /// Fully concealed self-draw.
    Menzenchintsumohou,
    /// Riichi declared.
    Riichi,
    /// Won within one go-around of declaring riichi.
    Ippatsu,
    /// Robbed a kan.
    Chankan,
    /// Won on the kan replacement tile.
    Rinshankaihou,
    /// Won on the very last draw.
    Haiteiraoyue,
    /// Won on the very last discard.
    Houteiraoyui,
    /// No extra fu: all runs, open wait, valueless pair.
    Pinfu,
    /// All simples.
    Tanyaochuu,
    /// One pair of identical runs, closed.
    Iipeikou,
    /// Seat wind east.
    JikazehaiE,
    /// Seat wind south.
    JikazehaiS,
    /// Seat wind west.
    JikazehaiW,
    /// Seat wind north.
    JikazehaiN,
    /// Round wind east.
    BakazehaiE,
    /// Round wind south.
    BakazehaiS,
    /// Round wind west.
    BakazehaiW,
    /// Round wind north.
    BakazehaiN,
    /// Triplet of white dragons.
    SangenpaiHaku,
    /// Triplet of green dragons.
    SangenpaiHatsu,
    /// Triplet of red dragons.
    SangenpaiChun,
    /// Riichi on the very first uninterrupted turn.
    DoubleRiichi,
    /// Seven pairs.
    Chiitoitsu,
    /// Every group and the pair contain a terminal or honor.
    Honchantaiyaochuu,
    /// The three runs 123, 456, 789 of one suit.
    Ikkitsuukan,
    /// The same run in all three suits.
    Sanshokudoujun,
    /// The same triplet in all three suits.
    Sanshokudoukou,
    /// Three kans.
    Sankantsu,
    /// All triplets.
    Toitoihou,
    /// Three concealed triplets.
    Sannankou,
    /// Two dragon triplets and a dragon pair.
    Shousangen,
    /// All terminals and honors.
    Honroutou,
    /// Two pairs of identical runs, closed.
    Ryanpeikou,
    /// Every group and the pair contain a terminal (no honors).
    Junchantaiyaochuu,
    /// One suit plus honors.
    Honniisou,
    /// One suit only.
    Chinniisou,
    /// Dealer's win on the very first draw.
    Tenhou,
    /// Non-dealer's win on the very first uninterrupted draw.
    Chiihou,
    /// Three dragon triplets.
    Daisangen,
    /// Four concealed triplets.
    Suuankou,
    /// Four concealed triplets with a pair wait.
    SuuankouTanki,
    /// All honors.
    Tsuuiisou,
    /// All greens.
    Ryuuiisou,
    /// All terminals.
    Chinroutou,
    /// Nine gates.
    Chuurenpoutou,
    /// Nine gates won on the nine-sided wait.
    Junseichuurenpoutou,
    /// Thirteen orphans.
    Kokushi,
    /// Thirteen orphans won on the thirteen-sided wait.
    Kokushi13,
    /// Four wind triplets.
    Daisuushi,
    /// Three wind triplets and a wind pair.
    Shousuushi,
    /// Four kans.
    Suukantsu,
}

/// Collects detected yaku with their han values (-1 marks a yakuman).
pub struct YakuBuilder {
    entries: Vec<(Yaku, i32)>,
}

impl View for YakuBuilder {
    type V = Seq<(Yaku, i32)>;

    closed spec fn view(&self) -> Seq<(Yaku, i32)> {
        self.entries@
    }
}

/// Total han of the collected entries, a yakuman sentinel counting as 13
/// (the base-point ladder already tops out at 13 han, so any ordinary
/// entries beside a yakuman cannot change the score).
pub open spec fn spec_total_han(entries: Seq<(Yaku, i32)>) -> int
    decreases entries.len(),
{
    if entries.len() == 0 {
        0
    } else {
        let rest = spec_total_han(entries.drop_last());
        let v = entries.last().1 as int;
        if v < 0 || v > 13 {
            rest + 13
        } else {
            rest + v
        }
    }
}

impl YakuBuilder {
    /// An empty collection.
    pub fn new() -> (r: YakuBuilder)
        ensures
            r@ =~= Seq::<(Yaku, i32)>::empty(),
    {
        YakuBuilder { entries: Vec::new() }
    }

    /// Records one pattern with its han value (-1 for a yakuman).
    pub fn add(&mut self, yaku: Yaku, han: i32)
        requires
            -1 <= han <= 13,
        ensures
            final(self)@ == old(self)@.push((yaku, han)),
    {
        self.entries.push((yaku, han));
    }

    /// Number of patterns collected.
    pub fn len(&self) -> (r: usize)
        ensures
            r == self@.len(),
    {
        self.entries.len()
    }

    /// The collected patterns.
    pub fn entries(&self) -> (r: &Vec<(Yaku, i32)>)
        ensures
            r@ == self@,
    {
        &self.entries
    }

    /// Total han: the sum of the entries, each yakuman sentinel counting
    /// as 13.
    pub fn total_han(&self) -> (r: u32)
        requires
            self@.len() <= 60,
        ensures
            r as int == spec_total_han(self@),
            r <= 13 * 60,
    {
        let mut total: u32 = 0;
        let mut i: usize = 0;
        while i < self.entries.len()
            invariant
                i <= self@.len() <= 60,
                total as int == spec_total_han(self@.take(i as int)),
                total <= 13 * i,
            decreases self@.len() - i,
        {
            let (_, v) = self.entries[i];
            proof {
                assert(self@.take(i + 1).drop_last() =~= self@.take(i as int));
                assert(self@.take(i + 1).last() == self@[i as int]);
            }
            if v < 0 || v > 13 {
                total += 13;
            } else {
                total += v as u32;
            }
            i += 1;
        }
        proof {
            assert(self@.take(self@.len() as int) =~= self@);
        }
        total
    }
}

// ---------------------------------------------------------------------------
// Tile-category sums over a 37-way histogram
// ---------------------------------------------------------------------------
/// Characters (m) tiles, red five included.
pub open spec fn spec_m_count(h: Seq<u8>) -> int {
    h[0] + h[1] + h[2] + h[3] + h[4] + h[5] + h[6] + h[7] + h[8] + h[34]
}

/// Circles (p) tiles, red five included.
pub open spec fn spec_p_count(h: Seq<u8>) -> int {
    h[9] + h[10] + h[11] + h[12] + h[13] + h[14] + h[15] + h[16] + h[17] + h[35]
}

/// Bamboo (s) tiles, red five included.
pub open spec fn spec_s_count(h: Seq<u8>) -> int {
    h[18] + h[19] + h[20] + h[21] + h[22] + h[23] + h[24] + h[25] + h[26] + h[36]
}

/// Honor tiles.
pub open spec fn spec_z_count(h: Seq<u8>) -> int {
    h[27] + h[28] + h[29] + h[30] + h[31] + h[32] + h[33]
}

/// Ones and nines of the three suits.
pub open spec fn spec_pure_terminal_count(h: Seq<u8>) -> int {
    h[0] + h[8] + h[9] + h[17] + h[18] + h[26]
}

/// The six green tiles: 2s 3s 4s 6s 8s and the green dragon.
pub open spec fn spec_green_count(h: Seq<u8>) -> int {
    h[19] + h[20] + h[21] + h[23] + h[25] + h[32]
}

/// Characters (m) tiles, red five included.
pub fn m_count(h: &TileSet37) -> (r: u8)
    requires
        h.wf(),
    ensures
        r as int == spec_m_count(h@),
{
    h.get(Tile::from_encoding(0).unwrap()) + h.get(Tile::from_encoding(1).unwrap()) + h.get(
        Tile::from_encoding(2).unwrap(),
    ) + h.get(Tile::from_encoding(3).unwrap()) + h.get(Tile::from_encoding(4).unwrap()) + h.get(
        Tile::from_encoding(5).unwrap(),
    ) + h.get(Tile::from_encoding(6).unwrap()) + h.get(Tile::from_encoding(7).unwrap()) + h.get(
        Tile::from_encoding(8).unwrap(),
    ) + h.get(Tile::from_encoding(34).unwrap())
}

/// Circles (p) tiles, red five included.
pub fn p_count(h: &TileSet37) -> (r: u8)
    requires
        h.wf(),
    ensures
        r as int == spec_p_count(h@),
{
    h.get(Tile::from_encoding(9).unwrap()) + h.get(Tile::from_encoding(10).unwrap()) + h.get(
        Tile::from_encoding(11).unwrap(),
    ) + h.get(Tile::from_encoding(12).unwrap()) + h.get(Tile::from_encoding(13).unwrap()) + h.get(
        Tile::from_encoding(14).unwrap(),
    ) + h.get(Tile::from_encoding(15).unwrap()) + h.get(Tile::from_encoding(16).unwrap()) + h.get(
        Tile::from_encoding(17).unwrap(),
    ) + h.get(Tile::from_encoding(35).unwrap())
}

/// Bamboo (s) tiles, red five included.
pub fn s_count(h: &TileSet37) -> (r: u8)
    requires
        h.wf(),
    ensures
        r as int == spec_s_count(h@),
{
    h.get(Tile::from_encoding(18).unwrap()) + h.get(Tile::from_encoding(19).unwrap()) + h.get(
        Tile::from_encoding(20).unwrap(),
    ) + h.get(Tile::from_encoding(21).unwrap()) + h.get(Tile::from_encoding(22).unwrap()) + h.get(
        Tile::from_encoding(23).unwrap(),
    ) + h.get(Tile::from_encoding(24).unwrap()) + h.get(Tile::from_encoding(25).unwrap()) + h.get(
        Tile::from_encoding(26).unwrap(),
    ) + h.get(Tile::from_encoding(36).unwrap())
}

/// Honor tiles.
pub fn z_count(h: &TileSet37) -> (r: u8)
    requires
        h.wf(),
    ensures
        r as int == spec_z_count(h@),
{
    h.get(Tile::from_encoding(27).unwrap()) + h.get(Tile::from_encoding(28).unwrap()) + h.get(
        Tile::from_encoding(29).unwrap(),
    ) + h.get(Tile::from_encoding(30).unwrap()) + h.get(Tile::from_encoding(31).unwrap()) + h.get(
        Tile::from_encoding(32).unwrap(),
    ) + h.get(Tile::from_encoding(33).unwrap())
}

/// Ones and nines of the three suits.
pub fn pure_terminal_count(h: &TileSet37) -> (r: u8)
    requires
        h.wf(),
    ensures
        r as int == spec_pure_terminal_count(h@),
{
    h.get(Tile::from_encoding(0).unwrap()) + h.get(Tile::from_encoding(8).unwrap()) + h.get(
        Tile::from_encoding(9).unwrap(),
    ) + h.get(Tile::from_encoding(17).unwrap()) + h.get(Tile::from_encoding(18).unwrap()) + h.get(
        Tile::from_encoding(26).unwrap(),
    )
}

/// The six green tiles.
pub fn green_count(h: &TileSet37) -> (r: u8)
    requires
        h.wf(),
    ensures
        r as int == spec_green_count(h@),
{
    h.get(Tile::from_encoding(19).unwrap()) + h.get(Tile::from_encoding(20).unwrap()) + h.get(
        Tile::from_encoding(21).unwrap(),
    ) + h.get(Tile::from_encoding(23).unwrap()) + h.get(Tile::from_encoding(25).unwrap()) + h.get(
        Tile::from_encoding(32).unwrap(),
    )
}

// ---------------------------------------------------------------------------
// Inputs shared by the detectors
// ---------------------------------------------------------------------------
/// The full context of one win, as the scorer sees it.
pub struct AgariInput {
    /// Who won.
    pub winner: Player,
    /// The dealer of the round.
    pub button: Player,
    /// Which round it is.
    pub round_id: RoundId,
    /// The winner's riichi state.
    pub riichi_flags: RiichiFlags,
    /// The winner's melds.
    pub melds: Vec<Meld>,
    /// The meld formed in the current turn, if any.
    pub incoming_meld: Option<Meld>,
    /// The action that completed the hand.
    pub action: Action,
    /// Ordinary draws made so far in the round.
    pub num_draws: u8,
    /// Whether the round is still in its uninterrupted first go-around.
    pub is_init_abortable: bool,
}

/// Facts of the winning hand independent of the chosen reading.
pub struct HandCommon {
    /// Self-draw or steal.
    pub agari_kind: AgariKind,
    /// All 14+ tiles: closed hand, melds and the winning tile.
    pub all_tiles: TileSet37,
    /// The tile that completed the hand.
    pub winning_tile: Tile,
    /// Whether the hand is closed (no open melds).
    pub is_closed: bool,
}

/// Facts of one chosen regular reading.
pub struct RegularWaitCommon {
    /// Fu beyond the base: triplets, the wait shape and the pair.
    pub extra_fu: u8,
    /// The group the winning tile completed (`None` for a pair wait).
    pub wait_group: Option<HandGroup>,
}

// ---------------------------------------------------------------------------
// Simple detectors
// ---------------------------------------------------------------------------
/// Entries of the pinfu detector: awarded exactly when the reading brings
/// no extra fu at all.
pub open spec fn spec_detect_pinfu(extra_fu: int) -> Seq<(Yaku, i32)> {
    if extra_fu == 0 {
        seq![(Yaku::Pinfu, 1i32)]
    } else {
        Seq::empty()
    }
}

/// No extra fu means pinfu.
pub fn detect_pinfu(yb: &mut YakuBuilder, extra_fu: u8)
    ensures
        final(yb)@ =~= old(yb)@ + spec_detect_pinfu(extra_fu as int),
{
    if extra_fu == 0 {
        yb.add(Yaku::Pinfu, 1);
    }
}

/// Entries of the irregular-hand detector.
pub open spec fn spec_detect_irregular(irregular: IrregularWait) -> Seq<(Yaku, i32)> {
    match irregular {
        IrregularWait::SevenPairs(_) => seq![(Yaku::Chiitoitsu, 2i32)],
        IrregularWait::ThirteenOrphans(_) => seq![(Yaku::Kokushi, -1i32)],
        IrregularWait::ThirteenOrphansAll => seq![(Yaku::Kokushi13, -1i32)],
    }
}

/// Seven pairs score two han; thirteen orphans a yakuman, its
/// thirteen-sided variant a separately named yakuman.
pub fn detect_irregular(yb: &mut YakuBuilder, irregular: IrregularWait)
    ensures
        final(yb)@ =~= old(yb)@ + spec_detect_irregular(irregular),
{
    match irregular {
        IrregularWait::SevenPairs(_) => yb.add(Yaku::Chiitoitsu, 2),
        IrregularWait::ThirteenOrphans(_) => yb.add(Yaku::Kokushi, -1),
        IrregularWait::ThirteenOrphansAll => yb.add(Yaku::Kokushi13, -1),
    }
}

/// Entries of the riichi detector.
pub open spec fn spec_detect_riichi(f: RiichiFlags) -> Seq<(Yaku, i32)> {
    if f.is_active {
        (if f.is_double {
            seq![(Yaku::DoubleRiichi, 2i32)]
        } else {
            seq![(Yaku::Riichi, 1i32)]
        }) + (if f.is_ippatsu {
            seq![(Yaku::Ippatsu, 1i32)]
        } else {
            Seq::empty()
        })
    } else {
        Seq::empty()
    }
}

/// Riichi (double riichi on the first turn), plus ippatsu within one
/// go-around of the declaration.
pub fn detect_riichi(yb: &mut YakuBuilder, riichi_flags: &RiichiFlags)
    ensures
        final(yb)@ =~= old(yb)@ + spec_detect_riichi(*riichi_flags),
{
    if riichi_flags.is_active {
        if riichi_flags.is_double {
            yb.add(Yaku::DoubleRiichi, 2);
        } else {
            yb.add(Yaku::Riichi, 1);
        }
        if riichi_flags.is_ippatsu {
            yb.add(Yaku::Ippatsu, 1);
        }
    }
}

/// Are all of the melds closed kans?
pub open spec fn spec_all_melds_closed(melds: Seq<Meld>) -> bool {
    forall|i: int| 0 <= i < melds.len() ==> (#[trigger] melds[i]) matches Meld::Ankan(_)
}

/// Entries of the fully-concealed-self-draw detector.
pub open spec fn spec_detect_mentsumo(kind: AgariKind, melds: Seq<Meld>) -> Seq<(Yaku, i32)> {
    if spec_all_melds_closed(melds) && kind == AgariKind::Tsumo {
        seq![(Yaku::Menzenchintsumohou, 1i32)]
    } else {
        Seq::empty()
    }
}

/// A self-draw with no open meld.
pub fn detect_mentsumo(yb: &mut YakuBuilder, agari_kind: AgariKind, melds: &Vec<Meld>)
    ensures
        final(yb)@ =~= old(yb)@ + spec_detect_mentsumo(agari_kind, melds@),
{
    let mut closed = true;
    let mut i: usize = 0;
    while i < melds.len()
        invariant
            i <= melds@.len(),
            closed == forall|k: int|
                0 <= k < i ==> (#[trigger] melds@[k]) matches Meld::Ankan(_),
        decreases melds@.len() - i,
    {
        if !melds[i].is_closed() {
            closed = false;
        }
        i += 1;
    }
    if closed && matches!(agari_kind, AgariKind::Tsumo) {
        yb.add(Yaku::Menzenchintsumohou, 1);
    }
}

/// Entries of the rinshan detector.
pub open spec fn spec_detect_rinshan(kind: AgariKind, incoming: Option<Meld>) -> Seq<(Yaku, i32)> {
    if (incoming matches Some(m) && (m matches Meld::Kakan(_) || m matches Meld::Daiminkan(_)
        || m matches Meld::Ankan(_))) && kind == AgariKind::Tsumo {
        seq![(Yaku::Rinshankaihou, 1i32)]
    } else {
        Seq::empty()
    }
}

/// A self-draw on the replacement tile of a freshly declared kan.
pub fn detect_rinshan(yb: &mut YakuBuilder, agari_kind: AgariKind, incoming_meld: Option<Meld>)
    ensures
        final(yb)@ =~= old(yb)@ + spec_detect_rinshan(agari_kind, incoming_meld),
{
    if let Some(m) = incoming_meld {
        if m.is_kan() && matches!(agari_kind, AgariKind::Tsumo) {
            yb.add(Yaku::Rinshankaihou, 1);
        }
    }
}

/// Entries of the chankan detector.
pub open spec fn spec_detect_chankan(action: Action, kind: AgariKind) -> Seq<(Yaku, i32)> {
    if kind == AgariKind::Ron && (action matches Action::Ankan(_) || action matches Action::Kakan(
        _,
    )) {
        seq![(Yaku::Chankan, 1i32)]
    } else {
        Seq::empty()
    }
}

/// A ron robbing a kan declaration.
pub fn detect_chankan(yb: &mut YakuBuilder, action: Action, agari_kind: AgariKind)
    ensures
        final(yb)@ =~= old(yb)@ + spec_detect_chankan(action, agari_kind),
{
    if matches!(agari_kind, AgariKind::Ron) && action.is_kan() {
        yb.add(Yaku::Chankan, 1);
    }
}

/// Entries of the last-chance detector: a win on the final draw or final
/// discard -- except that a replacement-tile win is rinshan, never haitei.
pub open spec fn spec_detect_last_chance(
    num_draws: int,
    kind: AgariKind,
    incoming: Option<Meld>,
) -> Seq<(Yaku, i32)> {
    if num_draws == MAX_NUM_DRAWS && spec_detect_rinshan(kind, incoming).len() == 0 {
        if kind == AgariKind::Tsumo {
            seq![(Yaku::Haiteiraoyue, 1i32)]
        } else {
            seq![(Yaku::Houteiraoyui, 1i32)]
        }
    } else {
        Seq::empty()
    }
}

/// A win on the very last draw or the very last discard; rinshan takes
/// precedence over haitei.
pub fn detect_last_chance(
    yb: &mut YakuBuilder,
    num_draws: u8,
    agari_kind: AgariKind,
    incoming_meld: Option<Meld>,
)
    ensures
        final(yb)@ =~= old(yb)@ + spec_detect_last_chance(
            num_draws as int,
            agari_kind,
            incoming_meld,
        ),
{
    let rinshan = match incoming_meld {
        Some(m) => m.is_kan() && matches!(agari_kind, AgariKind::Tsumo),
        None => false,
    };
    if num_draws == MAX_NUM_DRAWS && !rinshan {
        match agari_kind {
            AgariKind::Tsumo => yb.add(Yaku::Haiteiraoyue, 1),
            AgariKind::Ron => yb.add(Yaku::Houteiraoyui, 1),
        }
    }
}

/// Entries of the first-chance detector.
pub open spec fn spec_detect_first_chance(
    winner: Player,
    button: Player,
    is_init_abortable: bool,
    kind: AgariKind,
) -> Seq<(Yaku, i32)> {
    if is_init_abortable && kind == AgariKind::Tsumo {
        if winner == button {
            seq![(Yaku::Tenhou, -1i32)]
        } else {
            seq![(Yaku::Chiihou, -1i32)]
        }
    } else {
        Seq::empty()
    }
}

/// A self-draw in the uninterrupted first go-around: the dealer's is
/// tenhou, anyone else's chiihou.
pub fn detect_first_chance(
    yb: &mut YakuBuilder,
    winner: Player,
    button: Player,
    is_init_abortable: bool,
    agari_kind: AgariKind,
)
    ensures
        final(yb)@ =~= old(yb)@ + spec_detect_first_chance(
            winner,
            button,
            is_init_abortable,
            agari_kind,
        ),
{
    if is_init_abortable {
        match agari_kind {
            AgariKind::Ron => {},
            AgariKind::Tsumo => {
                if winner.to_u8() == button.to_u8() {
                    proof {
                        Player::lemma_eq(winner, button);
                    }
                    yb.add(Yaku::Tenhou, -1);
                } else {
                    yb.add(Yaku::Chiihou, -1);
                }
            },
        }
    }
}

/// Is every meld a kan?
pub open spec fn spec_num_kan(melds: Seq<Meld>) -> int
    decreases melds.len(),
{
    if melds.len() == 0 {
        0
    } else {
        spec_num_kan(melds.drop_last()) + if melds.last() matches Meld::Kakan(_)
            || melds.last() matches Meld::Daiminkan(_) || melds.last() matches Meld::Ankan(_) {
            1int
        } else {
            0int
        }
    }
}

/// Entries of the kan-count detector.
pub open spec fn spec_detect_kan(melds: Seq<Meld>) -> Seq<(Yaku, i32)> {
    if spec_num_kan(melds) == 4 {
        seq![(Yaku::Suukantsu, -1i32)]
    } else if spec_num_kan(melds) == 3 {
        seq![(Yaku::Sankantsu, 2i32)]
    } else {
        Seq::empty()
    }
}

/// Three kans score, four are a yakuman.
pub fn detect_kan(yb: &mut YakuBuilder, melds: &Vec<Meld>)
    ensures
        final(yb)@ =~= old(yb)@ + spec_detect_kan(melds@),
{
    let mut num_kan: usize = 0;
    let mut i: usize = 0;
    while i < melds.len()
        invariant
            i <= melds@.len(),
            num_kan as int == spec_num_kan(melds@.take(i as int)),
            num_kan <= i,
        decreases melds@.len() - i,
    {
        proof {
            assert(melds@.take(i + 1).drop_last() =~= melds@.take(i as int));
        }
        if melds[i].is_kan() {
            num_kan += 1;
        }
        i += 1;
    }
    proof {
        assert(melds@.take(melds@.len() as int) =~= melds@);
    }
    if num_kan == 4 {
        yb.add(Yaku::Suukantsu, -1);
    } else if num_kan == 3 {
        yb.add(Yaku::Sankantsu, 2);
    }
}

/// Are all closed groups of the reading triplets?
pub open spec fn spec_groups_all_koutsu(gs: Seq<HandGroup>) -> bool {
    forall|i: int| 0 <= i < gs.len() ==> (#[trigger] gs[i]) matches HandGroup::Koutsu(_)
}

/// Has the reading no chii among the melds?
pub open spec fn spec_melds_no_chii(melds: Seq<Meld>) -> bool {
    forall|i: int| 0 <= i < melds.len() ==> !((#[trigger] melds[i]) matches Meld::Chii(_))
}

/// Entries of the all-triplets detector.
pub open spec fn spec_detect_toitoi(
    melds: Seq<Meld>,
    rw: RegularWait,
    wait_group: Option<HandGroup>,
) -> Seq<(Yaku, i32)> {
    if spec_melds_no_chii(melds) && spec_groups_all_koutsu(rw.groups@) && !(wait_group matches Some(
        HandGroup::Shuntsu(_),
    )) {
        seq![(Yaku::Toitoihou, 2i32)]
    } else {
        Seq::empty()
    }
}

/// Every group a triplet (or kan).
pub fn detect_toitoi(
    yb: &mut YakuBuilder,
    melds: &Vec<Meld>,
    rw: &RegularWait,
    wait_group: Option<HandGroup>,
)
    ensures
        final(yb)@ =~= old(yb)@ + spec_detect_toitoi(melds@, *rw, wait_group),
{
    let mut ok = true;
    let mut i: usize = 0;
    while i < melds.len()
        invariant
            i <= melds@.len(),
            ok == forall|k: int| 0 <= k < i ==> !((#[trigger] melds@[k]) matches Meld::Chii(_)),
        decreases melds@.len() - i,
    {
        if matches!(melds[i], Meld::Chii(_)) {
            ok = false;
        }
        i += 1;
    }
    let mut j: usize = 0;
    let mut all_koutsu = true;
    while j < rw.groups.len()
        invariant
            j <= rw.groups@.len(),
            all_koutsu == forall|k: int|
                0 <= k < j ==> (#[trigger] rw.groups@[k]) matches HandGroup::Koutsu(_),
        decreases rw.groups@.len() - j,
    {
        if rw.groups[j].is_shuntsu() {
            all_koutsu = false;
        }
        j += 1;
    }
    if ok && all_koutsu && !matches!(wait_group, Some(HandGroup::Shuntsu(_))) {
        yb.add(Yaku::Toitoihou, 2);
    }
}

/// Does the group touch a terminal or honor: a triplet of a terminal or of
/// any honor, or a run starting at 1 or 7?
pub open spec fn spec_is_chanta(g: HandGroup) -> bool {
    match g {
        HandGroup::Koutsu(t) => spec_suit(t@) == 3 || spec_num(t@) == 1 || spec_num(t@) == 9,
        HandGroup::Shuntsu(t) => spec_num(t@) == 1 || spec_num(t@) == 7,
    }
}

/// Does the group touch a terminal or honor?
pub fn is_chanta(hand_group: HandGroup) -> (r: bool)
    ensures
        r == spec_is_chanta(hand_group),
{
    match hand_group {
        HandGroup::Koutsu(t) => t.suit() == 3 || t.num() == 1 || t.num() == 9,
        HandGroup::Shuntsu(t) => t.num() == 1 || t.num() == 7,
    }
}

// ---------------------------------------------------------------------------
// Run- and triplet-anchor statistics
// ---------------------------------------------------------------------------
/// The anchor of the equivalent closed group of a meld: the smallest tile
/// of a chii's run, the (normal) repeated tile of everything else.
pub open spec fn spec_meld_anchor(m: Meld) -> int {
    match m {
        Meld::Chii(c) => c.min@,
        Meld::Pon(p) => crate::tile::spec_normal(p.called@),
        Meld::Kakan(k) => crate::tile::spec_normal(k.added@),
        Meld::Daiminkan(d) => crate::tile::spec_normal(d.called@),
        Meld::Ankan(a) => crate::tile::spec_normal(a.own0@),
    }
}

/// How many runs anchored at `e` the melds contribute.
pub open spec fn melds_shuntsu_at(ms: Seq<Meld>, e: int) -> int
    decreases ms.len(),
{
    if ms.len() == 0 {
        0
    } else {
        melds_shuntsu_at(ms.drop_last(), e) + if ms.last() matches Meld::Chii(c) && c.min@ == e {
            1int
        } else {
            0int
        }
    }
}

/// How many triplets of kind `e` the melds contribute (kans included).
pub open spec fn melds_koutsu_at(ms: Seq<Meld>, e: int) -> int
    decreases ms.len(),
{
    if ms.len() == 0 {
        0
    } else {
        melds_koutsu_at(ms.drop_last(), e) + if !(ms.last() matches Meld::Chii(_))
            && spec_meld_anchor(ms.last()) == e {
            1int
        } else {
            0int
        }
    }
}

/// How many runs anchored at `e` the closed groups contribute.
pub open spec fn groups_shuntsu_at(gs: Seq<HandGroup>, e: int) -> int
    decreases gs.len(),
{
    if gs.len() == 0 {
        0
    } else {
        groups_shuntsu_at(gs.drop_last(), e) + if gs.last() matches HandGroup::Shuntsu(t) && t@
            == e {
            1int
        } else {
            0int
        }
    }
}

/// How many triplets of kind `e` the closed groups contribute.
pub open spec fn groups_koutsu_at(gs: Seq<HandGroup>, e: int) -> int
    decreases gs.len(),
{
    if gs.len() == 0 {
        0
    } else {
        groups_koutsu_at(gs.drop_last(), e) + if gs.last() matches HandGroup::Koutsu(t) && t@
            == e {
            1int
        } else {
            0int
        }
    }
}

/// How many runs anchored at `e` the whole reading has: melds, closed
/// groups, and the completed wait group.
pub open spec fn shuntsu_at(
    ms: Seq<Meld>,
    gs: Seq<HandGroup>,
    wg: Option<HandGroup>,
    e: int,
) -> int {
    melds_shuntsu_at(ms, e) + groups_shuntsu_at(gs, e) + (if wg matches Some(HandGroup::Shuntsu(t))
        && t@ == e {
        1int
    } else {
        0int
    })
}

/// How many triplets of kind `e` the whole reading has.
pub open spec fn koutsu_at(ms: Seq<Meld>, gs: Seq<HandGroup>, wg: Option<HandGroup>, e: int) -> int {
    melds_koutsu_at(ms, e) + groups_koutsu_at(gs, e) + (if wg matches Some(HandGroup::Koutsu(t))
        && t@ == e {
        1int
    } else {
        0int
    })
}

/// Builds the 34-slot table of run anchors (`what == true`) or triplet
/// kinds (`what == false`) of a reading.
fn anchor_counts(
    what_shuntsu: bool,
    melds: &Vec<Meld>,
    rw: &RegularWait,
    wait_group: Option<HandGroup>,
) -> (r: [u8; 34])
    requires
        forall|i: int| 0 <= i < melds@.len() ==> (#[trigger] melds@[i]).wf(),
        rw.wf(),
        wait_group matches Some(g) ==> g.wf(),
        melds@.len() <= 8,
    ensures
        r@.len() == 34,
        what_shuntsu ==> forall|e: int|
            0 <= e < 34 ==> #[trigger] r@[e] as int == shuntsu_at(
                melds@,
                rw.groups@,
                wait_group,
                e,
            ),
        !what_shuntsu ==> forall|e: int|
            0 <= e < 34 ==> #[trigger] r@[e] as int == koutsu_at(melds@, rw.groups@, wait_group, e),
{
    let mut counts = [0u8; 34];
    let mut i: usize = 0;
    while i < melds.len()
        invariant
            i <= melds@.len(),
            melds@.len() <= 8,
            counts@.len() == 34,
            forall|k: int| 0 <= k < melds@.len() ==> (#[trigger] melds@[k]).wf(),
            what_shuntsu ==> forall|e: int|
                0 <= e < 34 ==> #[trigger] counts@[e] as int == melds_shuntsu_at(
                    melds@.take(i as int),
                    e,
                ),
            !what_shuntsu ==> forall|e: int|
                0 <= e < 34 ==> #[trigger] counts@[e] as int == melds_koutsu_at(
                    melds@.take(i as int),
                    e,
                ),
            forall|e: int| 0 <= e < 34 ==> #[trigger] counts@[e] as int <= i,
        decreases melds@.len() - i,
    {
        let g = melds[i].to_equivalent_group();
        proof {
            assert(melds@.take(i + 1).drop_last() =~= melds@.take(i as int));
            assert(melds@.take(i + 1).last() == melds@[i as int]);
        }
        match g {
            HandGroup::Shuntsu(t) => {
                if what_shuntsu {
                    let e = t.encoding() as usize;
                    counts[e] = counts[e] + 1;
                }
            },
            HandGroup::Koutsu(t) => {
                if !what_shuntsu {
                    let e = t.encoding() as usize;
                    counts[e] = counts[e] + 1;
                }
            },
        }
        i += 1;
    }
    proof {
        assert(melds@.take(melds@.len() as int) =~= melds@);
    }
    let mut j: usize = 0;
    while j < rw.groups.len()
        invariant
            j <= rw.groups@.len(),
            rw.groups@.len() <= 4,
            counts@.len() == 34,
            rw.wf(),
            what_shuntsu ==> forall|e: int|
                0 <= e < 34 ==> #[trigger] counts@[e] as int == melds_shuntsu_at(melds@, e)
                    + groups_shuntsu_at(rw.groups@.take(j as int), e),
            !what_shuntsu ==> forall|e: int|
                0 <= e < 34 ==> #[trigger] counts@[e] as int == melds_koutsu_at(melds@, e)
                    + groups_koutsu_at(rw.groups@.take(j as int), e),
            forall|e: int| 0 <= e < 34 ==> #[trigger] counts@[e] as int <= 8 + j,
        decreases rw.groups@.len() - j,
    {
        let g = rw.groups[j];
        proof {
            assert(rw.groups@.take(j + 1).drop_last() =~= rw.groups@.take(j as int));
            assert(rw.groups@.take(j + 1).last() == rw.groups@[j as int]);
        }
        match g {
            HandGroup::Shuntsu(t) => {
                if what_shuntsu {
                    let e = t.encoding() as usize;
                    counts[e] = counts[e] + 1;
                }
            },
            HandGroup::Koutsu(t) => {
                if !what_shuntsu {
                    let e = t.encoding() as usize;
                    counts[e] = counts[e] + 1;
                }
            },
        }
        j += 1;
    }
    proof {
        assert(rw.groups@.take(rw.groups@.len() as int) =~= rw.groups@);
    }
    match wait_group {
        Some(HandGroup::Shuntsu(t)) => {
            if what_shuntsu {
                let e = t.encoding() as usize;
                counts[e] = counts[e] + 1;
            }
        },
        Some(HandGroup::Koutsu(t)) => {
            if !what_shuntsu {
                let e = t.encoding() as usize;
                counts[e] = counts[e] + 1;
            }
        },
        None => {},
    }
    counts
}

/// Total pairs of identical run anchors of the reading (one pair scores
/// iipeikou, two ryanpeikou).
pub open spec fn peikou_sum(
    ms: Seq<Meld>,
    gs: Seq<HandGroup>,
    wg: Option<HandGroup>,
    n: int,
) -> int
    decreases n,
{
    if n <= 0 {
        0
    } else {
        peikou_sum(ms, gs, wg, n - 1) + shuntsu_at(ms, gs, wg, n - 1) / 2
    }
}

/// Does some suit carry the three runs 1-2-3, 4-5-6, 7-8-9?
pub open spec fn spec_ikkitsuukan(ms: Seq<Meld>, gs: Seq<HandGroup>, wg: Option<HandGroup>) -> bool {
    ||| (shuntsu_at(ms, gs, wg, 0) > 0 && shuntsu_at(ms, gs, wg, 3) > 0 && shuntsu_at(
        ms,
        gs,
        wg,
        6,
    ) > 0)
    ||| (shuntsu_at(ms, gs, wg, 9) > 0 && shuntsu_at(ms, gs, wg, 12) > 0 && shuntsu_at(
        ms,
        gs,
        wg,
        15,
    ) > 0)
    ||| (shuntsu_at(ms, gs, wg, 18) > 0 && shuntsu_at(ms, gs, wg, 21) > 0 && shuntsu_at(
        ms,
        gs,
        wg,
        24,
    ) > 0)
}

/// Number of run numbers present in all three suits.
pub open spec fn sanshoku_shuntsu_count(
    ms: Seq<Meld>,
    gs: Seq<HandGroup>,
    wg: Option<HandGroup>,
    n: int,
) -> int
    decreases n,
{
    if n <= 0 {
        0
    } else {
        sanshoku_shuntsu_count(ms, gs, wg, n - 1) + if shuntsu_at(ms, gs, wg, n - 1) > 0
            && shuntsu_at(ms, gs, wg, n - 1 + 9) > 0 && shuntsu_at(ms, gs, wg, n - 1 + 18) > 0 {
            1int
        } else {
            0int
        }
    }
}

/// Number of triplet numbers present in all three suits.
pub open spec fn sanshoku_koutsu_count(
    ms: Seq<Meld>,
    gs: Seq<HandGroup>,
    wg: Option<HandGroup>,
    n: int,
) -> int
    decreases n,
{
    if n <= 0 {
        0
    } else {
        sanshoku_koutsu_count(ms, gs, wg, n - 1) + if koutsu_at(ms, gs, wg, n - 1) > 0 && koutsu_at(
            ms,
            gs,
            wg,
            n - 1 + 9,
        ) > 0 && koutsu_at(ms, gs, wg, n - 1 + 18) > 0 {
            1int
        } else {
            0int
        }
    }
}

/// Entries of the run-family detector: peikou pairs (closed only), the
/// pure straight, and three-suit runs (awarded only when exactly one run
/// number is shared by all three suits).
pub open spec fn spec_detect_shuntsu(
    ms: Seq<Meld>,
    rw: RegularWait,
    wg: Option<HandGroup>,
    is_closed: bool,
) -> Seq<(Yaku, i32)> {
    let gs = rw.groups@;
    (if is_closed && peikou_sum(ms, gs, wg, 34) == 1 {
        seq![(Yaku::Iipeikou, 1i32)]
    } else if is_closed && peikou_sum(ms, gs, wg, 34) == 2 {
        seq![(Yaku::Ryanpeikou, 3i32)]
    } else {
        Seq::empty()
    }) + (if spec_ikkitsuukan(ms, gs, wg) {
        seq![
            (
                Yaku::Ikkitsuukan,
                if is_closed {
                    2i32
                } else {
                    1i32
                },
            ),
        ]
    } else {
        Seq::empty()
    }) + (if sanshoku_shuntsu_count(ms, gs, wg, 9) == 1 {
        seq![
            (
                Yaku::Sanshokudoujun,
                if is_closed {
                    2i32
                } else {
                    1i32
                },
            ),
        ]
    } else {
        Seq::empty()
    })
}

/// Detects iipeikou/ryanpeikou, ikkitsuukan and sanshoku-doujun from the
/// reading's run anchors.
pub fn detect_shuntsu(
    yb: &mut YakuBuilder,
    melds: &Vec<Meld>,
    rw: &RegularWait,
    wait_group: Option<HandGroup>,
    is_closed: bool,
)
    requires
        forall|i: int| 0 <= i < melds@.len() ==> (#[trigger] melds@[i]).wf(),
        rw.wf(),
        wait_group matches Some(g) ==> g.wf(),
        melds@.len() <= 4,
    ensures
        final(yb)@ =~= old(yb)@ + spec_detect_shuntsu(melds@, *rw, wait_group, is_closed),
{
    let counts = anchor_counts(true, melds, rw, wait_group);
    let mut peikou: u32 = 0;
    let mut e: usize = 0;
    while e < 34
        invariant
            e <= 34,
            counts@.len() == 34,
            forall|x: int| 0 <= x < 34 ==> #[trigger] counts@[x] as int == shuntsu_at(
                melds@,
                rw.groups@,
                wait_group,
                x,
            ),
            peikou as int == peikou_sum(melds@, rw.groups@, wait_group, e as int),
            peikou <= 127 * e,
        decreases 34 - e,
    {
        peikou += (counts[e] / 2) as u32;
        e += 1;
    }
    if is_closed && peikou == 1 {
        yb.add(Yaku::Iipeikou, 1);
    } else if is_closed && peikou == 2 {
        yb.add(Yaku::Ryanpeikou, 3);
    }
    let ittsuu = (counts[0] > 0 && counts[3] > 0 && counts[6] > 0) || (counts[9] > 0 && counts[12]
        > 0 && counts[15] > 0) || (counts[18] > 0 && counts[21] > 0 && counts[24] > 0);
    if ittsuu {
        yb.add(Yaku::Ikkitsuukan, if is_closed {
            2
        } else {
            1
        });
    }
    let mut common: u32 = 0;
    let mut n: usize = 0;
    while n < 9
        invariant
            n <= 9,
            counts@.len() == 34,
            forall|x: int| 0 <= x < 34 ==> #[trigger] counts@[x] as int == shuntsu_at(
                melds@,
                rw.groups@,
                wait_group,
                x,
            ),
            common as int == sanshoku_shuntsu_count(melds@, rw.groups@, wait_group, n as int),
            common <= n,
        decreases 9 - n,
    {
        if counts[n] > 0 && counts[n + 9] > 0 && counts[n + 18] > 0 {
            common += 1;
        }
        n += 1;
    }
    if common == 1 {
        yb.add(Yaku::Sanshokudoujun, if is_closed {
            2
        } else {
            1
        });
    }
}

/// Entries of the three-suit-triplets detector.
pub open spec fn spec_detect_sanshokudoukou(
    ms: Seq<Meld>,
    rw: RegularWait,
    wg: Option<HandGroup>,
) -> Seq<(Yaku, i32)> {
    if sanshoku_koutsu_count(ms, rw.groups@, wg, 9) == 1 {
        seq![(Yaku::Sanshokudoukou, 2i32)]
    } else {
        Seq::empty()
    }
}

/// Detects the same triplet number in all three suits.
pub fn detect_sanshokudoukou(
    yb: &mut YakuBuilder,
    melds: &Vec<Meld>,
    rw: &RegularWait,
    wait_group: Option<HandGroup>,
)
    requires
        forall|i: int| 0 <= i < melds@.len() ==> (#[trigger] melds@[i]).wf(),
        rw.wf(),
        wait_group matches Some(g) ==> g.wf(),
        melds@.len() <= 4,
    ensures
        final(yb)@ =~= old(yb)@ + spec_detect_sanshokudoukou(melds@, *rw, wait_group),
{
    let counts = anchor_counts(false, melds, rw, wait_group);
    let mut common: u32 = 0;
    let mut n: usize = 0;
    while n < 9
        invariant
            n <= 9,
            counts@.len() == 34,
            forall|x: int| 0 <= x < 34 ==> #[trigger] counts@[x] as int == koutsu_at(
                melds@,
                rw.groups@,
                wait_group,
                x,
            ),
            common as int == sanshoku_koutsu_count(melds@, rw.groups@, wait_group, n as int),
            common <= n,
        decreases 9 - n,
    {
        if counts[n] > 0 && counts[n + 9] > 0 && counts[n + 18] > 0 {
            common += 1;
        }
        n += 1;
    }
    if common == 1 {
        yb.add(Yaku::Sanshokudoukou, 2);
    }
}

/// Number of triplets among the closed groups of a reading.
pub open spec fn spec_closed_koutsu_count(gs: Seq<HandGroup>) -> int
    decreases gs.len(),
{
    if gs.len() == 0 {
        0
    } else {
        spec_closed_koutsu_count(gs.drop_last()) + if gs.last() matches HandGroup::Koutsu(_) {
            1int
        } else {
            0int
        }
    }
}

/// Entries of the concealed-triplets detector: the closed triplets of the
/// reading, a waiting triplet completed by self-draw included.
pub open spec fn spec_detect_ankou(
    kind: AgariKind,
    rw: RegularWait,
    wg: Option<HandGroup>,
) -> Seq<(Yaku, i32)> {
    let n = spec_closed_koutsu_count(rw.groups@) + (if (wg matches Some(HandGroup::Koutsu(_)))
        && kind == AgariKind::Tsumo {
        1int
    } else {
        0int
    });
    if n == 4 {
        if rw.waiting_kind == WaitingKind::Tanki {
            seq![(Yaku::SuuankouTanki, -1i32)]
        } else {
            seq![(Yaku::Suuankou, -1i32)]
        }
    } else if n == 3 {
        seq![(Yaku::Sannankou, 2i32)]
    } else {
        Seq::empty()
    }
}

/// Detects three or four concealed triplets (a triplet completed by ron
/// does not count as concealed).
pub fn detect_ankou(
    yb: &mut YakuBuilder,
    agari_kind: AgariKind,
    rw: &RegularWait,
    wait_group: Option<HandGroup>,
)
    requires
        rw.groups@.len() <= 4,
    ensures
        final(yb)@ =~= old(yb)@ + spec_detect_ankou(agari_kind, *rw, wait_group),
{
    let mut n: usize = 0;
    let mut i: usize = 0;
    while i < rw.groups.len()
        invariant
            i <= rw.groups@.len(),
            n as int == spec_closed_koutsu_count(rw.groups@.take(i as int)),
            n <= i,
        decreases rw.groups@.len() - i,
    {
        proof {
            assert(rw.groups@.take(i + 1).drop_last() =~= rw.groups@.take(i as int));
            assert(rw.groups@.take(i + 1).last() == rw.groups@[i as int]);
        }
        if !rw.groups[i].is_shuntsu() {
            n += 1;
        }
        i += 1;
    }
    proof {
        assert(rw.groups@.take(rw.groups@.len() as int) =~= rw.groups@);
    }
    if matches!(wait_group, Some(HandGroup::Koutsu(_))) && matches!(agari_kind, AgariKind::Tsumo) {
        n += 1;
    }
    if n == 4 {
        if matches!(rw.waiting_kind, WaitingKind::Tanki) {
            yb.add(Yaku::SuuankouTanki, -1);
        } else {
            yb.add(Yaku::Suuankou, -1);
        }
    } else if n == 3 {
        yb.add(Yaku::Sannankou, 2);
    }
}

/// Is every meld's equivalent group terminal-touching?
pub open spec fn spec_melds_all_chanta(ms: Seq<Meld>) -> bool {
    forall|i: int|
        0 <= i < ms.len() ==> spec_meld_chanta_at(#[trigger] ms[i])
}

/// Does the meld's equivalent group touch a terminal or honor?
pub open spec fn spec_meld_chanta_at(m: Meld) -> bool {
    match m {
        Meld::Chii(c) => spec_num(c.min@) == 1 || spec_num(c.min@) == 7,
        _ => spec_suit(spec_meld_anchor(m)) == 3 || spec_num(spec_meld_anchor(m)) == 1 || spec_num(
            spec_meld_anchor(m),
        ) == 9,
    }
}

/// Are all closed groups terminal-touching?
pub open spec fn spec_groups_all_chanta(gs: Seq<HandGroup>) -> bool {
    forall|i: int| 0 <= i < gs.len() ==> spec_is_chanta(#[trigger] gs[i])
}

/// The pair of the reading (the tanki pattern when the wait is the pair)
/// holds a terminal or honor.
pub open spec fn spec_chanta_pair(rw: RegularWait) -> bool {
    match rw.pair {
        Some(t) => crate::tile::spec_is_terminal_or_honor(t@),
        None => crate::tile::spec_is_terminal_or_honor(rw.pattern@),
    }
}

/// The completed wait group (if the wait sits in a group) touches a
/// terminal or honor; a pair wait qualifies through the pair rule.
pub open spec fn spec_chanta_wait(rw: RegularWait, wg: Option<HandGroup>) -> bool {
    match wg {
        Some(g) => spec_is_chanta(g),
        None => rw.waiting_kind == WaitingKind::Tanki,
    }
}

/// Entries of the terminal-in-every-set detector: every group -- melds,
/// closed groups and the completed wait group -- and the pair must hold a
/// terminal or honor.
pub open spec fn spec_detect_chanta(
    ms: Seq<Meld>,
    h: Seq<u8>,
    rw: RegularWait,
    wg: Option<HandGroup>,
    is_closed: bool,
) -> Seq<(Yaku, i32)> {
    if spec_melds_all_chanta(ms) && spec_groups_all_chanta(rw.groups@) && spec_chanta_wait(rw, wg)
        && spec_chanta_pair(rw) {
        if spec_z_count(h) == 0 {
            seq![
                (
                    Yaku::Junchantaiyaochuu,
                    if is_closed {
                        3i32
                    } else {
                        2i32
                    },
                ),
            ]
        } else {
            seq![
                (
                    Yaku::Honchantaiyaochuu,
                    if is_closed {
                        2i32
                    } else {
                        1i32
                    },
                ),
            ]
        }
    } else {
        Seq::empty()
    }
}

/// Detects junchan/honchan: every group, the completed wait group, and
/// the pair touch a terminal or honor.
pub fn detect_chanta(
    yb: &mut YakuBuilder,
    melds: &Vec<Meld>,
    all_tiles: &TileSet37,
    rw: &RegularWait,
    wait_group: Option<HandGroup>,
    is_closed: bool,
)
    requires
        forall|i: int| 0 <= i < melds@.len() ==> (#[trigger] melds@[i]).wf(),
        rw.wf(),
        all_tiles.wf(),
    ensures
        final(yb)@ =~= old(yb)@ + spec_detect_chanta(melds@, all_tiles@, *rw, wait_group, is_closed),
{
    let mut meld_ok = true;
    let mut i: usize = 0;
    while i < melds.len()
        invariant
            i <= melds@.len(),
            forall|k: int| 0 <= k < melds@.len() ==> (#[trigger] melds@[k]).wf(),
            meld_ok == forall|k: int| 0 <= k < i ==> spec_meld_chanta_at(#[trigger] melds@[k]),
        decreases melds@.len() - i,
    {
        let g = melds[i].to_equivalent_group();
        if !is_chanta(g) {
            meld_ok = false;
        }
        i += 1;
    }
    let mut closed_ok = true;
    let mut j: usize = 0;
    while j < rw.groups.len()
        invariant
            j <= rw.groups@.len(),
            closed_ok == forall|k: int| 0 <= k < j ==> spec_is_chanta(#[trigger] rw.groups@[k]),
        decreases rw.groups@.len() - j,
    {
        if !is_chanta(rw.groups[j]) {
            closed_ok = false;
        }
        j += 1;
    }
    let waiting_ok = match wait_group {
        Some(g) => is_chanta(g),
        None => matches!(rw.waiting_kind, WaitingKind::Tanki),
    };
    let pair_ok = match rw.pair {
        Some(t) => t.is_terminal_or_honor(),
        None => rw.pattern.is_terminal_or_honor(),
    };
    if meld_ok && closed_ok && waiting_ok && pair_ok {
        if z_count(all_tiles) == 0 {
            yb.add(Yaku::Junchantaiyaochuu, if is_closed {
                3
            } else {
                2
            });
        } else {
            yb.add(Yaku::Honchantaiyaochuu, if is_closed {
                2
            } else {
                1
            });
        }
    }
}

// ---------------------------------------------------------------------------
// Whole-hand tile-category detectors
// ---------------------------------------------------------------------------
/// Entries of the tile-category chain: color hands, dragon and wind sets,
/// and flushes, all read off the combined histogram alone.
#[verifier::opaque]
pub open spec fn spec_detect_hand_only(h: Seq<u8>, is_closed: bool) -> Seq<(Yaku, i32)> {
    let m = spec_m_count(h);
    let p = spec_p_count(h);
    let s = spec_s_count(h);
    let z = spec_z_count(h);
    let one_nine = spec_pure_terminal_count(h);
    let total = m + p + s + z;
    (if spec_green_count(h) == total {
        seq![(Yaku::Ryuuiisou, -1i32)]
    } else if z + one_nine == 0 {
        seq![(Yaku::Tanyaochuu, 1i32)]
    } else if z == total {
        seq![(Yaku::Tsuuiisou, -1i32)]
    } else if one_nine == total {
        seq![(Yaku::Chinroutou, -1i32)]
    } else if z + one_nine == total {
        seq![(Yaku::Honroutou, 2i32)]
    } else {
        Seq::empty()
    }) + (if h[31] >= 3 {
        seq![(Yaku::SangenpaiHaku, 1i32)]
    } else {
        Seq::empty()
    }) + (if h[32] >= 3 {
        seq![(Yaku::SangenpaiHatsu, 1i32)]
    } else {
        Seq::empty()
    }) + (if h[33] >= 3 {
        seq![(Yaku::SangenpaiChun, 1i32)]
    } else {
        Seq::empty()
    }) + (if h[31] >= 3 && h[32] >= 3 && h[33] >= 3 {
        seq![(Yaku::Daisangen, -1i32)]
    } else if (h[31] == 2 && h[32] >= 3 && h[33] >= 3) || (h[32] == 2 && h[31] >= 3 && h[33] >= 3)
        || (h[33] == 2 && h[31] >= 3 && h[32] >= 3) {
        seq![(Yaku::Shousangen, 2i32)]
    } else if h[27] >= 3 && h[28] >= 3 && h[29] >= 3 && h[30] >= 3 {
        seq![(Yaku::Daisuushi, -1i32)]
    } else if (h[27] == 2 && h[28] >= 3 && h[29] >= 3 && h[30] >= 3) || (h[28] == 2 && h[27] >= 3
        && h[29] >= 3 && h[30] >= 3) || (h[29] == 2 && h[27] >= 3 && h[28] >= 3 && h[30] >= 3) || (
    h[30] == 2 && h[27] >= 3 && h[28] >= 3 && h[29] >= 3) {
        seq![(Yaku::Shousuushi, -1i32)]
    } else {
        Seq::empty()
    }) + (if (m > 0 && p == 0 && s == 0) || (p > 0 && m == 0 && s == 0) || (s > 0 && m == 0 && p
        == 0) {
        if z == 0 {
            seq![
                (
                    Yaku::Chinniisou,
                    if is_closed {
                        6i32
                    } else {
                        5i32
                    },
                ),
            ]
        } else {
            seq![
                (
                    Yaku::Honniisou,
                    if is_closed {
                        3i32
                    } else {
                        2i32
                    },
                ),
            ]
        }
    } else {
        Seq::empty()
    })
}

/// Detects the yaku that depend on the combined histogram alone: color
/// hands, individual dragons, the dragon and wind sets, and flushes.
#[verifier::rlimit(100)]
#[verifier::spinoff_prover]
pub fn detect_hand_only_yakus(yb: &mut YakuBuilder, all_tiles: &TileSet37, is_closed: bool)
    requires
        all_tiles.wf(),
    ensures
        final(yb)@ =~= old(yb)@ + spec_detect_hand_only(all_tiles@, is_closed),
{
    proof {
        reveal(spec_detect_hand_only);
    }
    let ghost g0 = yb@;
    let num_m = m_count(all_tiles);
    let num_p = p_count(all_tiles);
    let num_s = s_count(all_tiles);
    let num_z = z_count(all_tiles);
    let one_nine = pure_terminal_count(all_tiles);
    let num_tiles: u16 = num_m as u16 + num_p as u16 + num_s as u16 + num_z as u16;
    if green_count(all_tiles) as u16 == num_tiles {
        yb.add(Yaku::Ryuuiisou, -1);
    } else if num_z + one_nine == 0 {
        yb.add(Yaku::Tanyaochuu, 1);
    } else if num_z as u16 == num_tiles {
        yb.add(Yaku::Tsuuiisou, -1);
    } else if one_nine as u16 == num_tiles {
        yb.add(Yaku::Chinroutou, -1);
    } else if num_z as u16 + one_nine as u16 == num_tiles {
        yb.add(Yaku::Honroutou, 2);
    }
    proof {
        assert(yb@ =~= g0 + (if spec_green_count(all_tiles@) == spec_m_count(all_tiles@)
            + spec_p_count(all_tiles@) + spec_s_count(all_tiles@) + spec_z_count(all_tiles@) {
            seq![(Yaku::Ryuuiisou, -1i32)]
        } else if spec_z_count(all_tiles@) + spec_pure_terminal_count(all_tiles@) == 0 {
            seq![(Yaku::Tanyaochuu, 1i32)]
        } else if spec_z_count(all_tiles@) == spec_m_count(all_tiles@) + spec_p_count(all_tiles@)
            + spec_s_count(all_tiles@) + spec_z_count(all_tiles@) {
            seq![(Yaku::Tsuuiisou, -1i32)]
        } else if spec_pure_terminal_count(all_tiles@) == spec_m_count(all_tiles@) + spec_p_count(
            all_tiles@,
        ) + spec_s_count(all_tiles@) + spec_z_count(all_tiles@) {
            seq![(Yaku::Chinroutou, -1i32)]
        } else if spec_z_count(all_tiles@) + spec_pure_terminal_count(all_tiles@) == spec_m_count(
            all_tiles@,
        ) + spec_p_count(all_tiles@) + spec_s_count(all_tiles@) + spec_z_count(all_tiles@) {
            seq![(Yaku::Honroutou, 2i32)]
        } else {
            Seq::empty()
        }));
    }
    let d1 = all_tiles.get(Tile::from_encoding(31).unwrap());
    let d2 = all_tiles.get(Tile::from_encoding(32).unwrap());
    let d3 = all_tiles.get(Tile::from_encoding(33).unwrap());
    if d1 >= 3 {
        yb.add(Yaku::SangenpaiHaku, 1);
    }
    if d2 >= 3 {
        yb.add(Yaku::SangenpaiHatsu, 1);
    }
    if d3 >= 3 {
        yb.add(Yaku::SangenpaiChun, 1);
    }
    let w1 = all_tiles.get(Tile::from_encoding(27).unwrap());
    let w2 = all_tiles.get(Tile::from_encoding(28).unwrap());
    let w3 = all_tiles.get(Tile::from_encoding(29).unwrap());
    let w4 = all_tiles.get(Tile::from_encoding(30).unwrap());
    if d1 >= 3 && d2 >= 3 && d3 >= 3 {
        yb.add(Yaku::Daisangen, -1);
    } else if (d1 == 2 && d2 >= 3 && d3 >= 3) || (d2 == 2 && d1 >= 3 && d3 >= 3) || (d3 == 2 && d1
        >= 3 && d2 >= 3) {
        yb.add(Yaku::Shousangen, 2);
    } else if w1 >= 3 && w2 >= 3 && w3 >= 3 && w4 >= 3 {
        yb.add(Yaku::Daisuushi, -1);
    } else if (w1 == 2 && w2 >= 3 && w3 >= 3 && w4 >= 3) || (w2 == 2 && w1 >= 3 && w3 >= 3 && w4
        >= 3) || (w3 == 2 && w1 >= 3 && w2 >= 3 && w4 >= 3) || (w4 == 2 && w1 >= 3 && w2 >= 3 && w3
        >= 3) {
        yb.add(Yaku::Shousuushi, -1);
    }
    if (num_m > 0 && num_p == 0 && num_s == 0) || (num_p > 0 && num_m == 0 && num_s == 0) || (num_s
        > 0 && num_m == 0 && num_p == 0) {
        if num_z == 0 {
            yb.add(Yaku::Chinniisou, if is_closed {
                6
            } else {
                5
            });
        } else {
            yb.add(Yaku::Honniisou, if is_closed {
                3
            } else {
                2
            });
        }
    }
}

/// The round-wind yaku for wind number `w`.
pub open spec fn spec_bakazehai(w: int) -> Yaku {
    if w == 0 {
        Yaku::BakazehaiE
    } else if w == 1 {
        Yaku::BakazehaiS
    } else if w == 2 {
        Yaku::BakazehaiW
    } else {
        Yaku::BakazehaiN
    }
}

/// The seat-wind yaku for wind number `w`.
pub open spec fn spec_jikazehai(w: int) -> Yaku {
    if w == 0 {
        Yaku::JikazehaiE
    } else if w == 1 {
        Yaku::JikazehaiS
    } else if w == 2 {
        Yaku::JikazehaiW
    } else {
        Yaku::JikazehaiN
    }
}

/// Entries of the wind detector: a triplet of the round wind, and a
/// triplet of the winner's seat wind.
#[verifier::opaque]
pub open spec fn spec_detect_winds(h: Seq<u8>, round_id: RoundId, winner: Player) -> Seq<
    (Yaku, i32),
> {
    let pw = (round_id.kyoku as int / 4) % 4;
    let sw = (winner@ + 4 - round_id.kyoku as int % 4) % 4;
    (if h[27 + pw] >= 3 {
        seq![(spec_bakazehai(pw), 1i32)]
    } else {
        Seq::empty()
    }) + (if h[27 + sw] >= 3 {
        seq![(spec_jikazehai(sw), 1i32)]
    } else {
        Seq::empty()
    })
}

/// Detects round-wind and seat-wind triplets.
pub fn detect_winds(yb: &mut YakuBuilder, all_tiles: &TileSet37, round_id: RoundId, winner: Player)
    requires
        all_tiles.wf(),
        winner.wf(),
    ensures
        final(yb)@ =~= old(yb)@ + spec_detect_winds(all_tiles@, round_id, winner),
{
    proof {
        reveal(spec_detect_winds);
    }
    let pw = round_id.prevailing_wind();
    let pt = Tile::from_encoding(27 + pw).unwrap();
    if all_tiles.get(pt) >= 3 {
        let y = if pw == 0 {
            Yaku::BakazehaiE
        } else if pw == 1 {
            Yaku::BakazehaiS
        } else if pw == 2 {
            Yaku::BakazehaiW
        } else {
            Yaku::BakazehaiN
        };
        yb.add(y, 1);
    }
    let sw = round_id.self_wind_for_player(winner);
    let st = Tile::from_encoding(27 + sw).unwrap();
    if all_tiles.get(st) >= 3 {
        let y = if sw == 0 {
            Yaku::JikazehaiE
        } else if sw == 1 {
            Yaku::JikazehaiS
        } else if sw == 2 {
            Yaku::JikazehaiW
        } else {
            Yaku::JikazehaiN
        };
        yb.add(y, 1);
    }
}

/// The red-folded count of the `i`-th number of suit `s` in a 37-way
/// histogram.
pub open spec fn folded_digit(h: Seq<u8>, s: int, i: int) -> int {
    h[s * 9 + i] + (if i == 4 {
        h[34 + s] as int
    } else {
        0int
    })
}

/// The nine-gates pattern digit: 3 for the ones and nines, 1 between.
pub open spec fn gates_digit(i: int) -> int {
    if i == 0 || i == 8 {
        3
    } else {
        1
    }
}

/// Does the winning suit hold the nine-gates frame (at least 3-1-1-1-1-1-1-1-3)
/// with fourteen tiles in that suit altogether?
pub open spec fn spec_chuuren_frame(h: Seq<u8>, s: int) -> bool {
    &&& forall|i: int| 0 <= i < 9 ==> folded_digit(h, s, i) >= gates_digit(i)
    &&& folded_digit(h, s, 0) + folded_digit(h, s, 1) + folded_digit(h, s, 2) + folded_digit(
        h,
        s,
        3,
    ) + folded_digit(h, s, 4) + folded_digit(h, s, 5) + folded_digit(h, s, 6) + folded_digit(
        h,
        s,
        7,
    ) + folded_digit(h, s, 8) == 14
}

/// Entries of the nine-gates detector: the pure variant when the extra
/// fourteenth tile sits on the winning tile's own number.
#[verifier::opaque]
pub open spec fn spec_detect_chuuren(h: Seq<u8>, winning: Tile, is_closed: bool) -> Seq<
    (Yaku, i32),
> {
    let s = spec_suit(winning@);
    if is_closed && s < 3 && spec_chuuren_frame(h, s) {
        if folded_digit(h, s, crate::tile::spec_normal_num(winning@) - 1) > gates_digit(
            crate::tile::spec_normal_num(winning@) - 1,
        ) {
            seq![(Yaku::Junseichuurenpoutou, -1i32)]
        } else {
            seq![(Yaku::Chuurenpoutou, -1i32)]
        }
    } else {
        Seq::empty()
    }
}

/// Detects nine gates: a closed flush of `1112345678999` plus any
/// fourteenth tile of the suit.
pub fn detect_chuuren(yb: &mut YakuBuilder, all_tiles: &TileSet37, winning_tile: Tile, is_closed: bool)
    requires
        all_tiles.wf(),
        winning_tile.wf(),
    ensures
        final(yb)@ =~= old(yb)@ + spec_detect_chuuren(all_tiles@, winning_tile, is_closed),
{
    proof {
        reveal(spec_detect_chuuren);
    }
    let s = winning_tile.suit();
    if !is_closed || s >= 3 {
        return ;
    }
    let mut digits = [0u16; 9];
    let mut i: usize = 0;
    while i < 9
        invariant
            i <= 9,
            s < 3,
            all_tiles.wf(),
            digits@.len() == 9,
            forall|k: int| 0 <= k < i ==> #[trigger] digits@[k] as int == folded_digit(
                all_tiles@,
                s as int,
                k,
            ),
            forall|k: int| 0 <= k < i ==> #[trigger] digits@[k] <= 8,
        decreases 9 - i,
    {
        let base = all_tiles.get(Tile::from_encoding((s * 9 + i as u8) as u8).unwrap());
        let red: u8 = if i == 4 {
            all_tiles.get(Tile::from_encoding(34 + s).unwrap())
        } else {
            0
        };
        digits[i] = base as u16 + red as u16;
        i += 1;
    }
    let mut frame = true;
    let mut total: u16 = 0;
    let mut j: usize = 0;
    while j < 9
        invariant
            j <= 9,
            s < 3,
            digits@.len() == 9,
            forall|k: int| 0 <= k < 9 ==> #[trigger] digits@[k] as int == folded_digit(
                all_tiles@,
                s as int,
                k,
            ),
            forall|k: int| 0 <= k < 9 ==> #[trigger] digits@[k] <= 8,
            frame == (forall|k: int|
                0 <= k < j ==> #[trigger] folded_digit(all_tiles@, s as int, k) >= gates_digit(
                    k,
                )),
            total <= 8 * j,
            total as int == sum_digits(all_tiles@, s as int, j as int),
        decreases 9 - j,
    {
        let need: u16 = if j == 0 || j == 8 {
            3
        } else {
            1
        };
        if digits[j] < need {
            frame = false;
        }
        total += digits[j];
        j += 1;
    }
    proof {
        reveal_with_fuel(sum_digits, 10);
        assert(sum_digits(all_tiles@, s as int, 9) == folded_digit(all_tiles@, s as int, 0)
            + folded_digit(all_tiles@, s as int, 1) + folded_digit(all_tiles@, s as int, 2)
            + folded_digit(all_tiles@, s as int, 3) + folded_digit(all_tiles@, s as int, 4)
            + folded_digit(all_tiles@, s as int, 5) + folded_digit(all_tiles@, s as int, 6)
            + folded_digit(all_tiles@, s as int, 7) + folded_digit(all_tiles@, s as int, 8));
    }
    if frame && total == 14 {
        let nw = winning_tile.normal_num();
        let pos = (nw - 1) as usize;
        let need: u16 = if pos == 0 || pos == 8 {
            3
        } else {
            1
        };
        if digits[pos] > need {
            yb.add(Yaku::Junseichuurenpoutou, -1);
        } else {
            yb.add(Yaku::Chuurenpoutou, -1);
        }
    }
}

/// Sum of the first `n` folded digits of suit `s`.
pub open spec fn sum_digits(h: Seq<u8>, s: int, n: int) -> int
    decreases n,
{
    if n <= 0 {
        0
    } else {
        sum_digits(h, s, n - 1) + folded_digit(h, s, n - 1)
    }
}

// ---------------------------------------------------------------------------
// Entry points
// ---------------------------------------------------------------------------
/// The event entries every win can earn: riichi, self-draw, kan timing,
/// last and first chance.
#[verifier::opaque]
pub open spec fn spec_event_entries(input: AgariInput, hc: HandCommon) -> Seq<(Yaku, i32)> {
    spec_detect_riichi(input.riichi_flags) + spec_detect_mentsumo(hc.agari_kind, input.melds@)
        + spec_detect_rinshan(hc.agari_kind, input.incoming_meld) + spec_detect_chankan(
        input.action,
        hc.agari_kind,
    ) + spec_detect_last_chance(input.num_draws as int, hc.agari_kind, input.incoming_meld)
        + spec_detect_first_chance(
        input.winner,
        input.button,
        input.is_init_abortable,
        hc.agari_kind,
    )
}

/// The entries every win can earn, independent of the reading: the event
/// entries plus the tile-category chain.
#[verifier::opaque]
pub open spec fn spec_common_entries(input: AgariInput, hc: HandCommon) -> Seq<(Yaku, i32)> {
    spec_event_entries(input, hc) + spec_detect_hand_only(hc.all_tiles@, hc.is_closed)
}

/// Runs the event detectors shared by regular and irregular wins.
#[verifier::rlimit(100)]
#[verifier::spinoff_prover]
fn detect_event_yakus(yb: &mut YakuBuilder, input: &AgariInput, hand_common: &HandCommon)
    requires
        input.winner.wf(),
    ensures
        final(yb)@ =~= old(yb)@ + spec_event_entries(*input, *hand_common),
{
    proof {
        reveal(spec_event_entries);
    }
    let ghost s0 = yb@;
    detect_riichi(yb, &input.riichi_flags);
    detect_mentsumo(yb, hand_common.agari_kind, &input.melds);
    detect_rinshan(yb, hand_common.agari_kind, input.incoming_meld);
    proof {
        assert(yb@ =~= s0 + spec_detect_riichi(input.riichi_flags) + spec_detect_mentsumo(
            hand_common.agari_kind,
            input.melds@,
        ) + spec_detect_rinshan(hand_common.agari_kind, input.incoming_meld));
    }
    detect_chankan(yb, input.action, hand_common.agari_kind);
    detect_last_chance(yb, input.num_draws, hand_common.agari_kind, input.incoming_meld);
    detect_first_chance(
        yb,
        input.winner,
        input.button,
        input.is_init_abortable,
        hand_common.agari_kind,
    );
}

/// Runs the detectors shared by regular and irregular wins.
#[verifier::rlimit(100)]
#[verifier::spinoff_prover]
fn detect_common_yakus(yb: &mut YakuBuilder, input: &AgariInput, hand_common: &HandCommon)
    requires
        hand_common.all_tiles.wf(),
        input.winner.wf(),
    ensures
        final(yb)@ =~= old(yb)@ + spec_common_entries(*input, *hand_common),
{
    proof {
        reveal(spec_common_entries);
    }
    detect_event_yakus(yb, input, hand_common);
    detect_hand_only_yakus(yb, &hand_common.all_tiles, hand_common.is_closed);
}

/// The hand-level entries of a regular reading: winds, nine gates,
/// concealed triplets and kans.
#[verifier::opaque]
pub open spec fn spec_reading_hand_entries(
    input: AgariInput,
    hc: HandCommon,
    rw: RegularWait,
    wc: RegularWaitCommon,
) -> Seq<(Yaku, i32)> {
    spec_detect_winds(hc.all_tiles@, input.round_id, input.winner) + spec_detect_chuuren(
        hc.all_tiles@,
        hc.winning_tile,
        hc.is_closed,
    ) + spec_detect_ankou(hc.agari_kind, rw, wc.wait_group) + spec_detect_kan(input.melds@)
}

/// The group-level entries of a regular reading: all-triplets, the run
/// family, three-suit triplets, and terminal-touching sets.
#[verifier::opaque]
pub open spec fn spec_reading_group_entries(
    input: AgariInput,
    hc: HandCommon,
    rw: RegularWait,
    wc: RegularWaitCommon,
) -> Seq<(Yaku, i32)> {
    spec_detect_toitoi(input.melds@, rw, wc.wait_group) + spec_detect_shuntsu(
        input.melds@,
        rw,
        wc.wait_group,
        hc.is_closed,
    ) + spec_detect_sanshokudoukou(input.melds@, rw, wc.wait_group) + spec_detect_chanta(
        input.melds@,
        hc.all_tiles@,
        rw,
        wc.wait_group,
        hc.is_closed,
    )
}

/// The entries read from the chosen regular reading.
pub open spec fn spec_reading_entries(
    input: AgariInput,
    hc: HandCommon,
    rw: RegularWait,
    wc: RegularWaitCommon,
) -> Seq<(Yaku, i32)> {
    spec_reading_hand_entries(input, hc, rw, wc) + spec_reading_group_entries(input, hc, rw, wc)
}

/// Runs the winds, nine-gates, concealed-triplet and kan detectors.
#[verifier::rlimit(100)]
#[verifier::spinoff_prover]
fn detect_reading_hand_yakus(
    yb: &mut YakuBuilder,
    input: &AgariInput,
    hand_common: &HandCommon,
    regular_wait: &RegularWait,
    wait_common: &RegularWaitCommon,
)
    requires
        forall|i: int| 0 <= i < input.melds@.len() ==> (#[trigger] input.melds@[i]).wf(),
        input.melds@.len() <= 4,
        regular_wait.wf(),
        hand_common.all_tiles.wf(),
        hand_common.winning_tile.wf(),
        input.winner.wf(),
    ensures
        final(yb)@ =~= old(yb)@ + spec_reading_hand_entries(
            *input,
            *hand_common,
            *regular_wait,
            *wait_common,
        ),
{
    proof {
        reveal(spec_reading_hand_entries);
    }
    detect_winds(yb, &hand_common.all_tiles, input.round_id, input.winner);
    detect_chuuren(yb, &hand_common.all_tiles, hand_common.winning_tile, hand_common.is_closed);
    detect_ankou(yb, hand_common.agari_kind, regular_wait, wait_common.wait_group);
    detect_kan(yb, &input.melds);
}

/// Runs the all-triplets, run-family, three-suit-triplet and
/// terminal-touching detectors.
#[verifier::rlimit(100)]
#[verifier::spinoff_prover]
fn detect_reading_group_yakus(
    yb: &mut YakuBuilder,
    input: &AgariInput,
    hand_common: &HandCommon,
    regular_wait: &RegularWait,
    wait_common: &RegularWaitCommon,
)
    requires
        forall|i: int| 0 <= i < input.melds@.len() ==> (#[trigger] input.melds@[i]).wf(),
        input.melds@.len() <= 4,
        regular_wait.wf(),
        wait_common.wait_group matches Some(g) ==> g.wf(),
        hand_common.all_tiles.wf(),
    ensures
        final(yb)@ =~= old(yb)@ + spec_reading_group_entries(
            *input,
            *hand_common,
            *regular_wait,
            *wait_common,
        ),
{
    proof {
        reveal(spec_reading_group_entries);
    }
    detect_toitoi(yb, &input.melds, regular_wait, wait_common.wait_group);
    detect_shuntsu(yb, &input.melds, regular_wait, wait_common.wait_group, hand_common.is_closed);
    detect_sanshokudoukou(yb, &input.melds, regular_wait, wait_common.wait_group);
    detect_chanta(
        yb,
        &input.melds,
        &hand_common.all_tiles,
        regular_wait,
        wait_common.wait_group,
        hand_common.is_closed,
    );
}

/// All entries of a regular win, in detector order.
#[verifier::opaque]
pub open spec fn spec_regular_entries(
    input: AgariInput,
    hc: HandCommon,
    rw: RegularWait,
    wc: RegularWaitCommon,
) -> Seq<(Yaku, i32)> {
    spec_detect_pinfu(wc.extra_fu as int) + spec_common_entries(input, hc) + spec_reading_entries(
        input,
        hc,
        rw,
        wc,
    )
}

/// Runs every detector that applies to a regular (4-groups-and-a-pair)
/// winning hand, in a fixed order.
#[verifier::rlimit(100)]
pub fn detect_yakus_for_regular(
    yb: &mut YakuBuilder,
    input: &AgariInput,
    hand_common: &HandCommon,
    regular_wait: &RegularWait,
    wait_common: &RegularWaitCommon,
)
    requires
        forall|i: int| 0 <= i < input.melds@.len() ==> (#[trigger] input.melds@[i]).wf(),
        input.melds@.len() <= 4,
        regular_wait.wf(),
        wait_common.wait_group matches Some(g) ==> g.wf(),
        hand_common.all_tiles.wf(),
        hand_common.winning_tile.wf(),
        input.winner.wf(),
    ensures
        final(yb)@ =~= old(yb)@ + spec_regular_entries(
            *input,
            *hand_common,
            *regular_wait,
            *wait_common,
        ),
{
    proof {
        reveal(spec_regular_entries);
    }
    detect_pinfu(yb, wait_common.extra_fu);
    detect_common_yakus(yb, input, hand_common);
    detect_reading_hand_yakus(yb, input, hand_common, regular_wait, wait_common);
    detect_reading_group_yakus(yb, input, hand_common, regular_wait, wait_common);
}

/// All entries of an irregular win, in detector order.
#[verifier::opaque]
pub open spec fn spec_irregular_entries(
    input: AgariInput,
    hc: HandCommon,
    irregular: IrregularWait,
) -> Seq<(Yaku, i32)> {
    spec_detect_irregular(irregular) + spec_common_entries(input, hc)
}

/// Runs every detector that applies to an irregular (seven-pairs or
/// thirteen-orphans) winning hand, in a fixed order.
#[verifier::rlimit(100)]
pub fn detect_yakus_for_irregular(
    yb: &mut YakuBuilder,
    input: &AgariInput,
    hand_common: &HandCommon,
    irregular: IrregularWait,
)
    requires
        hand_common.all_tiles.wf(),
        input.winner.wf(),
    ensures
        final(yb)@ =~= old(yb)@ + spec_irregular_entries(*input, *hand_common, irregular),
{
    proof {
        reveal(spec_irregular_entries);
    }
    detect_irregular(yb, irregular);
    detect_common_yakus(yb, input, hand_common);
}

// ---------------------------------------------------------------------------
// Fu
// ---------------------------------------------------------------------------
/// Fu of the wait shape: closed waits (pair, middle, edge) earn two.
pub open spec fn spec_wait_fu(kind: WaitingKind) -> int {
    match kind {
        WaitingKind::Tanki | WaitingKind::Kanchan | WaitingKind::Penchan => 2,
        WaitingKind::Shanpon | WaitingKind::Ryanmen => 0,
    }
}

/// Fu of one closed complete triplet.
pub open spec fn spec_group_fu(g: HandGroup) -> int {
    match g {
        HandGroup::Koutsu(t) => if crate::tile::spec_is_terminal_or_honor(t@) {
            8
        } else {
            4
        },
        HandGroup::Shuntsu(_) => 0,
    }
}

/// Fu of the closed complete groups.
pub open spec fn spec_groups_fu(gs: Seq<HandGroup>) -> int
    decreases gs.len(),
{
    if gs.len() == 0 {
        0
    } else {
        spec_groups_fu(gs.drop_last()) + spec_group_fu(gs.last())
    }
}

/// Fu of one meld: open triplets 2/4, open kans 8/16, closed kans 16/32
/// (doubled values for terminals and honors).
pub open spec fn spec_meld_fu(m: Meld) -> int {
    let term = crate::tile::spec_is_terminal_or_honor(
        crate::tile::spec_normal(spec_meld_anchor(m)),
    );
    match m {
        Meld::Chii(_) => 0,
        Meld::Pon(_) => if term {
            4
        } else {
            2
        },
        Meld::Kakan(_) | Meld::Daiminkan(_) => if term {
            16
        } else {
            8
        },
        Meld::Ankan(_) => if term {
            32
        } else {
            16
        },
    }
}

/// Fu of all melds.
pub open spec fn spec_melds_fu(ms: Seq<Meld>) -> int
    decreases ms.len(),
{
    if ms.len() == 0 {
        0
    } else {
        spec_melds_fu(ms.drop_last()) + spec_meld_fu(ms.last())
    }
}

/// Fu of the completed wait group: a shanpon triplet counts closed when
/// drawn, open when ronned; runs earn nothing.
pub open spec fn spec_wait_group_fu(rw: RegularWait, kind: AgariKind) -> int {
    if rw.waiting_kind == WaitingKind::Shanpon {
        let term = crate::tile::spec_is_terminal_or_honor(rw.pattern@);
        if kind == AgariKind::Tsumo {
            if term {
                8int
            } else {
                4int
            }
        } else {
            if term {
                4int
            } else {
                2int
            }
        }
    } else {
        0
    }
}

/// Fu of the pair: two per honor role it carries (dragon, seat wind, round
/// wind; a doubled wind pair earns four). A tanki wait's pair is the
/// pattern tile itself.
pub open spec fn spec_pair_fu(pair_enc: int, round_wind: int, seat_wind: int) -> int {
    (if pair_enc == 31 || pair_enc == 32 || pair_enc == 33 {
        2int
    } else {
        0int
    }) + (if pair_enc == 27 + round_wind {
        2int
    } else {
        0int
    }) + (if pair_enc == 27 + seat_wind {
        2int
    } else {
        0int
    })
}

/// The extra fu of a reading beyond the base: wait shape, closed triplets,
/// the completed wait group, melds, and the pair.
pub open spec fn spec_extra_fu(
    rw: RegularWait,
    ms: Seq<Meld>,
    kind: AgariKind,
    round_wind: int,
    seat_wind: int,
) -> int {
    spec_wait_fu(rw.waiting_kind) + spec_groups_fu(rw.groups@) + spec_wait_group_fu(rw, kind)
        + spec_melds_fu(ms) + spec_pair_fu(
        match rw.pair {
            Some(t) => t@,
            None => rw.pattern@,
        },
        round_wind,
        seat_wind,
    )
}

/// Computes the extra fu of a reading.
pub fn calc_extra_fu(
    rw: &RegularWait,
    melds: &Vec<Meld>,
    agari_kind: AgariKind,
    round_wind: u8,
    seat_wind: u8,
) -> (r: u8)
    requires
        rw.wf(),
        forall|i: int| 0 <= i < melds@.len() ==> (#[trigger] melds@[i]).wf(),
        melds@.len() <= 4,
        round_wind < 4,
        seat_wind < 4,
    ensures
        r as int == spec_extra_fu(*rw, melds@, agari_kind, round_wind as int, seat_wind as int),
        r <= 200,
{
    let wait_fu: u8 = match rw.waiting_kind {
        WaitingKind::Tanki | WaitingKind::Kanchan | WaitingKind::Penchan => 2,
        WaitingKind::Shanpon | WaitingKind::Ryanmen => 0,
    };
    let mut group_fu: u8 = 0;
    let mut i: usize = 0;
    while i < rw.groups.len()
        invariant
            i <= rw.groups@.len() <= 4,
            rw.wf(),
            group_fu as int == spec_groups_fu(rw.groups@.take(i as int)),
            group_fu <= 8 * i,
        decreases rw.groups@.len() - i,
    {
        proof {
            assert(rw.groups@.take(i + 1).drop_last() =~= rw.groups@.take(i as int));
            assert(rw.groups@.take(i + 1).last() == rw.groups@[i as int]);
        }
        match rw.groups[i] {
            HandGroup::Koutsu(t) => {
                if t.is_terminal_or_honor() {
                    group_fu += 8;
                } else {
                    group_fu += 4;
                }
            },
            HandGroup::Shuntsu(_) => {},
        }
        i += 1;
    }
    proof {
        assert(rw.groups@.take(rw.groups@.len() as int) =~= rw.groups@);
    }
    let wg_fu: u8 = if matches!(rw.waiting_kind, WaitingKind::Shanpon) {
        let term = rw.pattern.is_terminal_or_honor();
        if matches!(agari_kind, AgariKind::Tsumo) {
            if term {
                8
            } else {
                4
            }
        } else {
            if term {
                4
            } else {
                2
            }
        }
    } else {
        0
    };
    let mut meld_fu: u8 = 0;
    let mut j: usize = 0;
    while j < melds.len()
        invariant
            j <= melds@.len() <= 4,
            forall|k: int| 0 <= k < melds@.len() ==> (#[trigger] melds@[k]).wf(),
            meld_fu as int == spec_melds_fu(melds@.take(j as int)),
            meld_fu <= 32 * j,
        decreases melds@.len() - j,
    {
        proof {
            assert(melds@.take(j + 1).drop_last() =~= melds@.take(j as int));
            assert(melds@.take(j + 1).last() == melds@[j as int]);
        }
        let m = melds[j];
        let g = m.to_equivalent_group();
        let term = g.anchor().to_normal().is_terminal_or_honor();
        match m {
            Meld::Chii(_) => {},
            Meld::Pon(_) => meld_fu += if term {
                4
            } else {
                2
            },
            Meld::Kakan(_) | Meld::Daiminkan(_) => meld_fu += if term {
                16
            } else {
                8
            },
            Meld::Ankan(_) => meld_fu += if term {
                32
            } else {
                16
            },
        }
        j += 1;
    }
    proof {
        assert(melds@.take(melds@.len() as int) =~= melds@);
    }
    let pair_tile = match rw.pair {
        Some(t) => t,
        None => rw.pattern,
    };
    let pe = pair_tile.encoding();
    let mut pair_fu: u8 = 0;
    if pe == 31 || pe == 32 || pe == 33 {
        pair_fu += 2;
    }
    if pe == 27 + round_wind {
        pair_fu += 2;
    }
    if pe == 27 + seat_wind {
        pair_fu += 2;
    }
    proof {
        assert(pair_fu as int == spec_pair_fu(
            pair_tile@,
            round_wind as int,
            seat_wind as int,
        ));
    }
    wait_fu + group_fu + wg_fu + meld_fu + pair_fu
}

/// The total fu of a regular reading: base 20, plus 10 for a closed ron,
/// plus 2 for a non-pinfu self-draw, plus the extra fu, rounded up to the
/// next ten.
pub open spec fn spec_total_fu(extra: int, is_closed: bool, kind: AgariKind) -> int {
    let raw = 20 + (if is_closed && kind == AgariKind::Ron {
        10int
    } else {
        0int
    }) + (if kind == AgariKind::Tsumo && extra != 0 {
        2int
    } else {
        0int
    }) + extra;
    ((raw + 9) / 10) * 10
}

/// Rounds the fu of a regular reading up to its final value.
pub fn calc_total_fu(extra: u8, is_closed: bool, agari_kind: AgariKind) -> (r: u8)
    requires
        extra <= 200,
    ensures
        r as int == spec_total_fu(extra as int, is_closed, agari_kind),
        20 <= r <= 250,
{
    let raw: u16 = 20 + (if is_closed && matches!(agari_kind, AgariKind::Ron) {
        10u16
    } else {
        0u16
    }) + (if matches!(agari_kind, AgariKind::Tsumo) && extra != 0 {
        2u16
    } else {
        0u16
    }) + extra as u16;
    (((raw + 9) / 10) * 10) as u8
}

} // verus!
