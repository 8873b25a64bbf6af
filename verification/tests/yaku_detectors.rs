//! Direct checks of scoring-pattern detectors.

use riichi::hand_group::HandGroup;
use riichi::decomp::{RegularWait, WaitingKind};
use riichi::model::AgariKind;
use riichi::yaku::{detect_ankou, detect_chanta, YakuBuilder, Yaku};
use riichi::{tiles_from_str, Meld, Tile, TileSet37};

fn t(s: &str) -> Tile {
    Tile::from_str(s).unwrap()
}

fn groups(gs: &[HandGroup]) -> Vec<HandGroup> {
    gs.to_vec()
}

#[test]
fn three_concealed_triplets_score_two_han() {
    let rw = RegularWait {
        groups: groups(&[
            HandGroup::Koutsu(t("2m")),
            HandGroup::Koutsu(t("3p")),
            HandGroup::Koutsu(t("4s")),
            HandGroup::Shuntsu(t("5m")),
        ]),
        pair: Some(t("9s")),
        waiting_kind: WaitingKind::Ryanmen,
        pattern: t("5m"),
        waiting_tile: t("4m"),
    };
    let mut yb = YakuBuilder::new();
    detect_ankou(&mut yb, AgariKind::Ron, &rw, Some(HandGroup::Shuntsu(t("4m"))));
    let entries = yb.entries();
    assert_eq!(entries.len(), 1);
    assert_eq!(entries[0], (Yaku::Sannankou, 2));
}

#[test]
fn chanta_requires_a_terminal_pair() {
    // all groups touch terminals, but the pair is a plain five: no award
    let melds: Vec<Meld> = Vec::new();
    let all_tiles = TileSet37::from_tiles(&tiles_from_str("123m789m123p789p55s"));
    let rw = RegularWait {
        groups: groups(&[
            HandGroup::Shuntsu(t("1m")),
            HandGroup::Shuntsu(t("7m")),
            HandGroup::Shuntsu(t("1p")),
        ]),
        pair: Some(t("5s")),
        waiting_kind: WaitingKind::Ryanmen,
        pattern: t("7p"),
        waiting_tile: t("9p"),
    };
    let mut yb = YakuBuilder::new();
    detect_chanta(&mut yb, &melds, &all_tiles, &rw, Some(HandGroup::Shuntsu(t("7p"))), true);
    assert_eq!(yb.entries().len(), 0);
}

#[test]
fn junchan_with_terminal_pair() {
    let melds: Vec<Meld> = Vec::new();
    let all_tiles = TileSet37::from_tiles(&tiles_from_str("123m789m123p789p99s"));
    let rw = RegularWait {
        groups: groups(&[
            HandGroup::Shuntsu(t("1m")),
            HandGroup::Shuntsu(t("7m")),
            HandGroup::Shuntsu(t("1p")),
        ]),
        pair: Some(t("9s")),
        waiting_kind: WaitingKind::Ryanmen,
        pattern: t("7p"),
        waiting_tile: t("9p"),
    };
    let mut yb = YakuBuilder::new();
    detect_chanta(&mut yb, &melds, &all_tiles, &rw, Some(HandGroup::Shuntsu(t("7p"))), true);
    let entries = yb.entries();
    assert_eq!(entries.len(), 1);
    assert_eq!(entries[0], (Yaku::Junchantaiyaochuu, 3));
}

#[test]
fn honchan_accepts_honor_triplets() {
    // a dragon triplet qualifies as a terminal-or-honor set
    let melds: Vec<Meld> = Vec::new();
    let all_tiles = TileSet37::from_tiles(&tiles_from_str("123m789m555z123p11s"));
    let rw = RegularWait {
        groups: groups(&[
            HandGroup::Shuntsu(t("1m")),
            HandGroup::Shuntsu(t("7m")),
            HandGroup::Koutsu(t("5z")),
        ]),
        pair: Some(t("1s")),
        waiting_kind: WaitingKind::Penchan,
        pattern: t("1p"),
        waiting_tile: t("3p"),
    };
    let mut yb = YakuBuilder::new();
    detect_chanta(&mut yb, &melds, &all_tiles, &rw, Some(HandGroup::Shuntsu(t("1p"))), true);
    let entries = yb.entries();
    assert_eq!(entries.len(), 1);
    assert_eq!(entries[0], (Yaku::Honchantaiyaochuu, 2));
}

#[test]
fn chanta_allows_a_terminal_tanki() {
    // a pair wait on a terminal: the wait itself is the qualifying pair
    let melds: Vec<Meld> = Vec::new();
    let all_tiles = TileSet37::from_tiles(&tiles_from_str("123m789m123p789p99s"));
    let rw = RegularWait {
        groups: groups(&[
            HandGroup::Shuntsu(t("1m")),
            HandGroup::Shuntsu(t("7m")),
            HandGroup::Shuntsu(t("1p")),
            HandGroup::Shuntsu(t("7p")),
        ]),
        pair: None,
        waiting_kind: WaitingKind::Tanki,
        pattern: t("9s"),
        waiting_tile: t("9s"),
    };
    let mut yb = YakuBuilder::new();
    detect_chanta(&mut yb, &melds, &all_tiles, &rw, None, true);
    let entries = yb.entries();
    assert_eq!(entries.len(), 1);
    assert_eq!(entries[0], (Yaku::Junchantaiyaochuu, 3));
}
