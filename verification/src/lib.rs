//! Core rules engine for Japanese riichi mahjong.
//!
//! The crate is organised bottom-up:
//! - [`tile`]: the 37-way tile encoding (34 normal kinds + 3 red fives);
//! - [`tile_set`]: tile histograms ([`tile_set::TileSet37`], [`tile_set::TileSet34`]);
//! - [`meld`]: the five meld kinds and their packed 16-bit codec;
//! - [`model`]: actions, reactions, discards, and round bookkeeping types;
//! - [`wall`]: the 136-tile wall layout;
//! - [`decomp`]: waiting-hand decomposition into groups, pair and wait;
//! - [`yaku`]: scoring-pattern detection;
//! - [`engine`]: the turn-cycle state machine tying it all together.

pub mod tile;
pub mod tile_set;
pub mod player;
pub mod hand_group;
pub mod meld;
pub mod model;
pub mod wall;
pub mod decomp;
pub mod yaku;
pub mod engine;

pub use tile::{Tile, tiles_from_str};
pub use tile_set::{TileSet37, TileSet34};
pub use player::Player;
pub use hand_group::HandGroup;
pub use meld::{Meld, Chii, Pon, Kakan, Daiminkan, Ankan, PackedMeld};
pub use model::{
    Action,
    ActionError,
    ActionResult,
    AgariKind,
    Discard,
    Reaction,
    ReactionError,
    RiichiFlags,
    RoundBegin,
    RoundEnd,
    RoundId,
    Ruleset,
    State,
    StateCore,
};
pub use decomp::{IrregularWait, RegularWait, WaitingKind, decompose, detect_irregular_wait};
pub use yaku::{Yaku, YakuBuilder, detect_yakus_for_regular, detect_yakus_for_irregular};
pub use engine::Engine;
