//! Meld construction, the packed codec, and display glyphs.

use riichi::{Ankan, Chii, Daiminkan, Kakan, Meld, Player, Pon, Tile, TileSet37};

fn t(s: &str) -> Tile {
    Tile::from_str(s).unwrap()
}

#[test]
fn chii_example() {
    let chii = Chii::from_tiles(t("4s"), t("6s"), t("0s")).unwrap();
    let meld = Meld::Chii(chii);
    assert_eq!(Meld::from_packed(0x1155), Some(meld));
    assert_eq!(meld.packed(), 0x1155);
    assert_eq!(chii.to_string(), "C046s");
    assert_eq!(meld.to_string(), "C046s");
}

#[test]
fn pon_example() {
    let pon = Pon::from_tiles_dir(t("5p"), t("0p"), t("0p"), Player::new(2)).unwrap();
    let meld = Meld::Pon(pon);
    assert_eq!(Meld::from_packed(0x258D), Some(meld));
    assert_eq!(meld.packed(), 0x258D);
    assert_eq!(pon.to_string(), "0P05p");
    assert_eq!(meld.to_string(), "0P05p");
}

#[test]
fn null_example() {
    assert_eq!(Meld::from_packed(0), None);
}

#[test]
fn sizeof() {
    println!(
        "Meld={} (align={}), Option<Meld>={} (align={})",
        std::mem::size_of::<Meld>(),
        std::mem::align_of::<Meld>(),
        std::mem::size_of::<Option<Meld>>(),
        std::mem::align_of::<Option<Meld>>(),
    );
}

#[test]
fn daiminkan_round_trip() {
    let dk = Daiminkan::from_tiles_dir([t("0p"), t("5p"), t("5p")], t("0p"), Player::new(3))
        .unwrap();
    let meld = Meld::Daiminkan(dk);
    let packed = meld.packed();
    assert_eq!(Meld::from_packed(packed), Some(meld));
    // own tiles sort red-first, so the red flags pack as a prefix plus the
    // called bit
    assert_eq!((packed >> 8) & 0xF, 0b1001);
}

#[test]
fn ankan_round_trip() {
    let mut hand = TileSet37::empty();
    hand.set(t("5s"), 3);
    hand.set(t("0s"), 1);
    let ak = Ankan::from_hand(&hand, t("5s")).unwrap();
    let meld = Meld::Ankan(ak);
    let packed = meld.packed();
    assert_eq!(Meld::from_packed(packed), Some(meld));
    assert_eq!(meld.to_string(), "A0555s");
}

#[test]
fn kakan_round_trip() {
    let pon = Pon::from_tiles_dir(t("5m"), t("5m"), t("5m"), Player::new(1)).unwrap();
    let kk = Kakan::from_pon_added(pon, t("0m")).unwrap();
    let meld = Meld::Kakan(kk);
    let packed = meld.packed();
    assert_eq!(Meld::from_packed(packed), Some(meld));
    assert_eq!(meld.to_string(), "55K50m");
}

#[test]
fn chii_rejects_non_runs() {
    assert!(Chii::from_tiles(t("4s"), t("6s"), t("8s")).is_none());
    assert!(Chii::from_tiles(t("4s"), t("5p"), t("6s")).is_none());
    assert!(Chii::from_tiles(t("1z"), t("2z"), t("3z")).is_none());
}

#[test]
fn pon_rejects_mismatches() {
    assert!(Pon::from_tiles_dir(t("5p"), t("6p"), t("5p"), Player::new(2)).is_none());
    assert!(Pon::from_tiles_dir(t("5p"), t("5p"), t("5p"), Player::new(0)).is_none());
}

#[test]
fn non_canonical_red_flags_parse_alike() {
    // the deserializer normalizes red flags: a packing that writes the
    // pon's own red on the high own bit parses to the same meld
    let canonical = Meld::from_packed(0x258D);
    let shuffled = Meld::from_packed(0x268D);
    assert!(canonical.is_some());
    assert_eq!(shuffled, canonical);
}

#[test]
fn normalize_idempotent() {
    // red flags normalize to the same value twice over, and the number of
    // own red flags is preserved
    for x in 0u8..16 {
        let p = riichi::meld::normalize_pon(x);
        assert_eq!(riichi::meld::normalize_pon(p), p);
        assert_eq!((p & 1) + ((p >> 1) & 1), (x & 1) + ((x >> 1) & 1));
        let k = riichi::meld::normalize_kakan(x);
        assert_eq!(riichi::meld::normalize_kakan(k), k);
        let d = riichi::meld::normalize_daiminkan(x);
        assert_eq!(riichi::meld::normalize_daiminkan(d), d);
        let a = riichi::meld::normalize_ankan(x);
        assert_eq!(riichi::meld::normalize_ankan(a), a);
        assert_eq!(a.count_ones(), x.count_ones());
    }
}

#[test]
fn meld_accessors() {
    let chii = Chii::from_tiles(t("4s"), t("6s"), t("5s")).unwrap();
    let meld = Meld::Chii(chii);
    assert!(!meld.is_closed());
    assert!(!meld.is_kan());
    assert_eq!(meld.called(), Some(t("5s")));
    assert_eq!(meld.dir().unwrap().to_u8(), 3);

    let mut hand = TileSet37::empty();
    hand.set(t("1z"), 4);
    let ak = Meld::Ankan(Ankan::from_hand(&hand, t("1z")).unwrap());
    assert!(ak.is_closed());
    assert!(ak.is_kan());
    assert_eq!(ak.called(), None);
    assert!(ak.dir().is_none());
}
