//! Tiles, histograms, packing, and the histogram round trip.

use riichi::{tiles_from_str, Tile, TileSet34, TileSet37};

fn t(s: &str) -> Tile {
    Tile::from_str(s).unwrap()
}

#[test]
fn histogram_can_be_indexed_with_tile() {
    let tiles = tiles_from_str("1112345678999m");
    let mut h = TileSet37::from_tiles(&tiles);
    let nine = t("9m");
    let chun = t("7z");
    h.set(nine, h.get(nine) - 2);
    h.set(chun, h.get(chun) + 2);
    assert_eq!(
        h,
        TileSet37::new([
            3, 1, 1, 1, 1, 1, 1, 1, 1,
            0, 0, 0, 0, 0, 0, 0, 0, 0,
            0, 0, 0, 0, 0, 0, 0, 0, 0,
            0, 0, 0, 0, 0, 0, 2,
            0, 0, 0u8,
        ])
    );
}

#[test]
fn ts34_treats_red_as_normal() {
    let mut h = TileSet34::new([0u8; 34]);
    h.set(t("5m"), 1);
    h.set(t("0p"), 2);
    h.set(t("6s"), 3);
    assert_eq!(
        h,
        TileSet34::new([
            0, 0, 0, 0, 1, 0, 0, 0, 0,
            0, 0, 0, 0, 2, 0, 0, 0, 0,
            0, 0, 0, 0, 0, 3, 0, 0, 0,
            0, 0, 0, 0, 0, 0, 0,
        ])
    );
}

#[test]
fn ts34_packs_correctly() {
    let tiles = tiles_from_str("147m258p369s77z");
    let h = TileSet34::from_tiles(&tiles);
    assert_eq!(h.packed(), [
        0o001001001,
        0o010010010,
        0o100100100,
        0o2000000,
    ]);
}

#[test]
fn ts34_round_trip() {
    // rebuilding a histogram from its sorted listing gives it back
    let tiles = tiles_from_str("1112345678999m55z");
    let h = TileSet34::from_tiles(&tiles);
    let listed = h.to_sorted_vec();
    let rebuilt = TileSet34::from_tiles(&listed);
    assert_eq!(rebuilt, h);

    let h37 = TileSet37::from_tiles(&tiles_from_str("0m55m123p77z"));
    let listed37 = h37.to_sorted_vec();
    let rebuilt37 = TileSet37::from_tiles(&listed37);
    assert_eq!(rebuilt37, h37);
}

#[test]
fn tile_parsing_and_display() {
    assert_eq!(t("1m").encoding(), 0);
    assert_eq!(t("9m").encoding(), 8);
    assert_eq!(t("1p").encoding(), 9);
    assert_eq!(t("7z").encoding(), 33);
    assert_eq!(t("0s").encoding(), 36);
    assert!(Tile::from_str("8z").is_none());
    assert!(Tile::from_str("x5").is_none());
    assert_eq!(t("0p").to_string(), "0p");
    assert_eq!(t("5p").to_string(), "5p");
    assert_eq!(t("3z").to_string(), "3z");
}

#[test]
fn red_five_semantics() {
    let red = t("0m");
    assert!(red.is_red());
    assert_eq!(red.num(), 0);
    assert_eq!(red.normal_num(), 5);
    assert_eq!(red.to_normal(), t("5m"));
    assert_eq!(t("5m").to_red(), red);
    assert_eq!(t("3m").to_red(), t("3m"));
    assert_eq!(red.suit(), 0);
}

#[test]
fn succ_behaviour() {
    assert_eq!(t("1m").succ(), Some(t("2m")));
    assert_eq!(t("0p").succ(), Some(t("6p")));
    assert_eq!(t("9s").succ(), None);
    assert_eq!(t("1z").succ(), None);
}

#[test]
fn wall_is_valid() {
    let wall = riichi::wall::make_sorted_wall([1, 1, 1]);
    assert!(riichi::wall::is_valid_wall(&wall));
    assert!(wall[16].is_red());
    let none_red = riichi::wall::make_sorted_wall([0, 0, 0]);
    assert!(riichi::wall::is_valid_wall(&none_red));
    assert!(!none_red[16].is_red());
}
