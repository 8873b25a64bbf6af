//! Hand decomposition: regular waits, irregular waits, reconstruction.

use riichi::{decompose, detect_irregular_wait, tiles_from_str, IrregularWait, Tile, TileSet34};

fn t(s: &str) -> Tile {
    Tile::from_str(s).unwrap()
}

fn waits_of(hand: &str) -> Vec<u8> {
    let h = TileSet34::from_tiles(&tiles_from_str(hand));
    let mut out: Vec<u8> = decompose(&h).iter().map(|w| w.waiting_tile.encoding()).collect();
    out.sort();
    out.dedup();
    out
}

#[test]
fn ryanmen_waits_both_sides() {
    // 23m completes with 1m or 4m
    assert_eq!(waits_of("23m456p789s11122z"), vec![t("1m").encoding(), t("4m").encoding()]);
}

#[test]
fn kanchan_and_penchan() {
    assert_eq!(waits_of("13m456p789s11122z"), vec![t("2m").encoding()]);
    assert_eq!(waits_of("12m456p789s11122z"), vec![t("3m").encoding()]);
    assert_eq!(waits_of("89m456p789s11122z"), vec![t("7m").encoding()]);
}

#[test]
fn tanki_and_shanpon() {
    assert_eq!(waits_of("123m456p789s1112z"), vec![t("2z").encoding()]);
    // 11m 22z with three complete groups waits on either pair becoming the
    // triplet
    assert_eq!(
        waits_of("11123m456p789s22z"),
        vec![t("1m").encoding(), t("4m").encoding(), t("2z").encoding()]
    );
}

#[test]
fn nine_gates_waits_on_everything() {
    let waits = waits_of("1112345678999m");
    let expected: Vec<u8> = (0..9).collect();
    assert_eq!(waits, expected);
}

#[test]
fn every_reading_reconstructs_the_hand() {
    // the decomposer's outputs sum back to the hand, kind by kind
    let h = TileSet34::from_tiles(&tiles_from_str("1112345678999m"));
    for w in decompose(&h) {
        let mut counts = [0i32; 34];
        for g in &w.groups {
            match g {
                riichi::HandGroup::Koutsu(x) => counts[x.encoding() as usize] += 3,
                riichi::HandGroup::Shuntsu(x) => {
                    let e = x.encoding() as usize;
                    counts[e] += 1;
                    counts[e + 1] += 1;
                    counts[e + 2] += 1;
                },
            }
        }
        if let Some(pt) = w.pair {
            counts[pt.encoding() as usize] += 2;
        }
        let pe = w.pattern.encoding() as usize;
        match w.waiting_kind {
            riichi::WaitingKind::Tanki => counts[pe] += 1,
            riichi::WaitingKind::Shanpon => counts[pe] += 2,
            riichi::WaitingKind::Kanchan => {
                counts[pe] += 1;
                counts[pe + 2] += 1;
            },
            riichi::WaitingKind::Penchan | riichi::WaitingKind::Ryanmen => {
                counts[pe] += 1;
                counts[pe + 1] += 1;
            },
        }
        for e in 0..34 {
            let tile = Tile::from_normal_encoding(e as u8).unwrap();
            assert_eq!(counts[e] as u8, h.get(tile), "kind {} mismatched", e);
        }
    }
}

#[test]
fn seven_pairs_wait() {
    let h = TileSet34::from_tiles(&tiles_from_str("1122m334455p667s"));
    assert_eq!(detect_irregular_wait(&h), Some(IrregularWait::SevenPairs(t("7s"))));
}

#[test]
fn thirteen_orphans_waits() {
    // twelve kinds held, one of them doubled: the missing kind completes
    let h = TileSet34::from_tiles(&tiles_from_str("119m19p19s123456z"));
    assert_eq!(detect_irregular_wait(&h), Some(IrregularWait::ThirteenOrphans(t("7z"))));
    let all = TileSet34::from_tiles(&tiles_from_str("19m19p19s1234567z"));
    assert_eq!(detect_irregular_wait(&all), Some(IrregularWait::ThirteenOrphansAll));
    let not = TileSet34::from_tiles(&tiles_from_str("23m456p789s11122z"));
    assert_eq!(detect_irregular_wait(&not), None);
}

#[test]
fn regular_and_seven_pairs_coexist() {
    // two identical run pairs also read as six pairs plus a single: both
    // the regular decomposer and the seven-pairs detector report a wait
    let h = TileSet34::from_tiles(&tiles_from_str("223344m556677p8p"));
    let regular = decompose(&h);
    assert!(regular.iter().any(|w| w.waiting_tile == t("8p")));
    assert_eq!(detect_irregular_wait(&h), Some(IrregularWait::SevenPairs(t("8p"))));
}
