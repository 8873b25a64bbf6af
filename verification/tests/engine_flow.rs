//! The turn-cycle engine: turns, aborts, wins and scoring.

use riichi::{
    Action, ActionError, ActionResult, Discard, Engine, Meld, Player, Pon, Reaction, RiichiFlags,
    RoundBegin, RoundId, Ruleset, State, StateCore, Tile, TileSet37, tiles_from_str,
};
use riichi::model::FuritenFlags;

fn t(s: &str) -> Tile {
    Tile::from_str(s).unwrap()
}

/// Builds a full wall that deals `p0` to the first player, puts `draw52`
/// at the dealer's first draw, and `indicator` at the dora indicator.
fn build_wall(p0: &[Tile], draw52: Tile, indicator: Tile) -> [Tile; 136] {
    assert_eq!(p0.len(), 13);
    let mut pool: Vec<Tile> = Vec::new();
    for e in 0..34u8 {
        for _ in 0..4 {
            pool.push(Tile::from_normal_encoding(e).unwrap());
        }
    }
    let mut used: Vec<Tile> = p0.to_vec();
    used.push(draw52);
    used.push(indicator);
    for u in &used {
        let pos = pool.iter().position(|x| x == u).expect("tile available");
        pool.remove(pos);
    }
    let mut wall: Vec<Tile> = Vec::new();
    wall.extend_from_slice(p0);
    wall.extend(pool.drain(..39));
    wall.push(draw52);
    wall.extend(pool.drain(..69));
    wall.push(indicator);
    wall.extend(pool.drain(..));
    wall.try_into().unwrap()
}

fn begin_with(wall: [Tile; 136], kyoku: u8, honba: u8) -> RoundBegin {
    RoundBegin {
        ruleset: Ruleset::standard(),
        round_id: RoundId { kyoku, honba },
        wall,
        pot: 0,
        points: [25000, 25000, 25000, 25000],
    }
}

fn hand37(s: &str) -> TileSet37 {
    TileSet37::from_tiles(&tiles_from_str(s))
}

#[test]
fn begin_round_deals_and_draws() {
    let mut engine = Engine::new();
    let wall = riichi::wall::make_sorted_wall([1, 1, 1]);
    engine.begin_round(begin_with(wall, 0, 0));
    assert_eq!(engine.state().core.seq, 0);
    assert_eq!(engine.state().core.actor.to_u8(), 0);
    assert_eq!(engine.state().core.num_drawn_head, 53);
    assert!(engine.state().core.draw.is_some());
    assert!(engine.end().is_none());
}

#[test]
fn pass_turn_advances_seq_and_actor() {
    let mut engine = Engine::new();
    let wall = riichi::wall::make_sorted_wall([0, 0, 0]);
    engine.begin_round(begin_with(wall, 0, 0));
    // sorted wall: the dealer holds 1m1m1m1m 2m2m2m2m 3m3m3m3m 4m, draws 5m
    let draw = engine.state().core.draw.unwrap();
    engine
        .register_action(Action::Discard(Discard {
            tile: draw,
            called_by: Player::new(0),
            declares_riichi: false,
            is_tsumogiri: true,
        }))
        .unwrap();
    let gs = engine.step().unwrap();
    assert_eq!(gs.action_result, ActionResult::Pass);
    assert_eq!(engine.state().core.seq, 1);
    assert_eq!(engine.state().core.actor.to_u8(), 1);
    assert_eq!(engine.state().discards[0].len(), 1);
}

#[test]
fn register_does_not_mutate_state() {
    let mut engine = Engine::new();
    let wall = riichi::wall::make_sorted_wall([0, 0, 0]);
    engine.begin_round(begin_with(wall, 0, 0));
    let seq_before = engine.state().core.seq;
    let head_before = engine.state().core.num_drawn_head;
    let hand_before = engine.state().closed_hands[0];
    let draw = engine.state().core.draw.unwrap();
    engine
        .register_action(Action::Discard(Discard {
            tile: draw,
            called_by: Player::new(0),
            declares_riichi: false,
            is_tsumogiri: true,
        }))
        .unwrap();
    // registering, even twice over, changes nothing visible
    let _ = engine.register_action(Action::AbortNineKinds);
    assert_eq!(engine.state().core.seq, seq_before);
    assert_eq!(engine.state().core.num_drawn_head, head_before);
    assert_eq!(engine.state().closed_hands[0], hand_before);
    assert_eq!(engine.state().discards[0].len(), 0);
}

#[test]
fn discard_of_unheld_tile_is_rejected() {
    let mut engine = Engine::new();
    let wall = riichi::wall::make_sorted_wall([0, 0, 0]);
    engine.begin_round(begin_with(wall, 0, 0));
    // the dealer's sorted hand holds no 9s
    let r = engine.register_action(Action::Discard(Discard {
        tile: t("9s"),
        called_by: Player::new(0),
        declares_riichi: false,
        is_tsumogiri: false,
    }));
    assert_eq!(r, Err(ActionError::TileNotInHand));
}

#[test]
fn first_turn_abort() {
    // nine distinct terminals and honors allow the nine-kinds abort; the
    // round ends with no point movement and no pot
    let p0: Vec<Tile> = tiles_from_str("19m19p19s1234567z");
    let p0 = &p0[..13];
    let wall = build_wall(p0, t("5m"), t("1z"));
    let mut engine = Engine::new();
    engine.begin_round(begin_with(wall, 0, 0));
    engine.register_action(Action::AbortNineKinds).unwrap();
    let gs = engine.step().unwrap();
    assert_eq!(gs.action_result, ActionResult::AbortNineKinds);
    let end = engine.end().as_ref().unwrap();
    assert_eq!(end.result, ActionResult::AbortNineKinds);
    assert_eq!(end.points_delta, [0, 0, 0, 0]);
    assert_eq!(end.pot, 0);
}

#[test]
fn nine_kinds_needs_eligibility() {
    let mut engine = Engine::new();
    let wall = riichi::wall::make_sorted_wall([0, 0, 0]);
    engine.begin_round(begin_with(wall, 0, 0));
    // 1m1m1m1m2m2m2m2m3m3m3m3m4m holds only one orphan kind
    let r = engine.register_action(Action::AbortNineKinds);
    assert_eq!(r, Err(ActionError::NineKindsNotEligible));
}

#[test]
fn simple_tsumo_dealer() {
    // pinfu + self-draw: 2 han 20 fu; the dealer collects 700 from each
    let mut engine = Engine::new();
    let h_win = hand37("234m456p23678s99p");
    let h_junk = hand37("1111222233334m");
    let mut d0: Vec<Discard> = Vec::new();
    d0.push(Discard {
        tile: t("1z"),
        called_by: Player::new(0),
        declares_riichi: false,
        is_tsumogiri: true,
    });
    let state = State {
        core: StateCore {
            seq: 4,
            actor: Player::new(0),
            num_drawn_head: 54,
            num_drawn_tail: 0,
            draw: Some(t("4s")),
        },
        closed_hands: [h_win, h_junk, h_junk, h_junk],
        melds: [Vec::new(), Vec::new(), Vec::new(), Vec::new()],
        discards: [d0, Vec::new(), Vec::new(), Vec::new()],
        riichi_flags: [RiichiFlags::none(), RiichiFlags::none(), RiichiFlags::none(),
            RiichiFlags::none()],
        furiten: [FuritenFlags::none(), FuritenFlags::none(), FuritenFlags::none(),
            FuritenFlags::none()],
        incoming_meld: None,
    };
    engine.jump_to_state(state);
    engine.register_action(Action::TsumoAgari(t("4s"))).unwrap();
    let gs = engine.step().unwrap();
    assert_eq!(gs.action_result, ActionResult::TsumoAgari);
    let end = engine.end().as_ref().unwrap();
    assert_eq!(end.agari.len(), 1);
    let ag = &end.agari[0];
    assert_eq!(ag.fu, 20);
    assert_eq!(ag.han, 2);
    assert_eq!(ag.points_won, 2100);
    assert_eq!(end.points_delta, [2100, -700, -700, -700]);
}

#[test]
fn simple_tsumo_non_dealer() {
    // the same win as a non-dealer: 400 from the others, 700 from the dealer
    let mut engine = Engine::new();
    let h_win = hand37("234m456p23678s99p");
    let h_junk = hand37("1111222233334m");
    let mut d1: Vec<Discard> = Vec::new();
    d1.push(Discard {
        tile: t("1z"),
        called_by: Player::new(1),
        declares_riichi: false,
        is_tsumogiri: true,
    });
    let state = State {
        core: StateCore {
            seq: 5,
            actor: Player::new(1),
            num_drawn_head: 54,
            num_drawn_tail: 0,
            draw: Some(t("4s")),
        },
        closed_hands: [h_junk, h_win, h_junk, h_junk],
        melds: [Vec::new(), Vec::new(), Vec::new(), Vec::new()],
        discards: [Vec::new(), d1, Vec::new(), Vec::new()],
        riichi_flags: [RiichiFlags::none(), RiichiFlags::none(), RiichiFlags::none(),
            RiichiFlags::none()],
        furiten: [FuritenFlags::none(), FuritenFlags::none(), FuritenFlags::none(),
            FuritenFlags::none()],
        incoming_meld: None,
    };
    engine.jump_to_state(state);
    engine.register_action(Action::TsumoAgari(t("4s"))).unwrap();
    let gs = engine.step().unwrap();
    assert_eq!(gs.action_result, ActionResult::TsumoAgari);
    let end = engine.end().as_ref().unwrap();
    let ag = &end.agari[0];
    assert_eq!(ag.fu, 20);
    assert_eq!(ag.han, 2);
    // 400 + 400 + 700
    assert_eq!(ag.points_won, 1500);
    assert_eq!(end.points_delta, [-700, 1500, -400, -400]);
}

#[test]
fn chankan_robbed_kan() {
    // the dealer promotes a pon of 5m; the player across robs it for the
    // win, and the kan is never committed
    let mut engine = Engine::new();
    let pon = Pon::from_tiles_dir(t("5m"), t("5m"), t("5m"), Player::new(3)).unwrap();
    let mut p0_melds: Vec<Meld> = Vec::new();
    p0_melds.push(Meld::Pon(pon));
    let h0 = hand37("111222333p5m");
    let h2 = hand37("34m234p567p234s99s");
    let h_junk = hand37("1111222233334s");
    let called = Discard {
        tile: t("5m"),
        called_by: Player::new(0),
        declares_riichi: false,
        is_tsumogiri: false,
    };
    let mut d3: Vec<Discard> = Vec::new();
    d3.push(called);
    let state = State {
        core: StateCore {
            seq: 8,
            actor: Player::new(0),
            num_drawn_head: 53,
            num_drawn_tail: 0,
            draw: Some(t("1z")),
        },
        closed_hands: [h0, h_junk, h2, h_junk],
        melds: [p0_melds, Vec::new(), Vec::new(), Vec::new()],
        discards: [Vec::new(), Vec::new(), Vec::new(), d3],
        riichi_flags: [RiichiFlags::none(), RiichiFlags::none(), RiichiFlags::none(),
            RiichiFlags::none()],
        furiten: [FuritenFlags::none(), FuritenFlags::none(), FuritenFlags::none(),
            FuritenFlags::none()],
        incoming_meld: None,
    };
    engine.jump_to_state(state);
    engine.register_action(Action::Kakan(t("5m"))).unwrap();
    engine.register_reaction(Player::new(2), Reaction::RonAgari).unwrap();
    let gs = engine.step().unwrap();
    assert_eq!(gs.action_result, ActionResult::RonAgari);
    // the kan was robbed: the pon still stands un-promoted
    assert_eq!(engine.state().melds[0].len(), 1);
    assert!(matches!(engine.state().melds[0][0], Meld::Pon(_)));
    let end = engine.end().as_ref().unwrap();
    assert_eq!(end.agari.len(), 1);
    assert_eq!(end.agari[0].winner.to_u8(), 2);
}

#[test]
fn chii_call_moves_turn() {
    // the dealer discards 4m; the next player calls chii with 5m6m
    let mut engine = Engine::new();
    let h0 = hand37("444m111222333p4m");
    let h1 = hand37("56m123456789s11z");
    let h_junk = hand37("1111222233334s");
    let state = State {
        core: StateCore {
            seq: 4,
            actor: Player::new(0),
            num_drawn_head: 53,
            num_drawn_tail: 0,
            draw: Some(t("1z")),
        },
        closed_hands: [h0, h1, h_junk, h_junk],
        melds: [Vec::new(), Vec::new(), Vec::new(), Vec::new()],
        discards: [Vec::new(), Vec::new(), Vec::new(), Vec::new()],
        riichi_flags: [RiichiFlags::none(), RiichiFlags::none(), RiichiFlags::none(),
            RiichiFlags::none()],
        furiten: [FuritenFlags::none(), FuritenFlags::none(), FuritenFlags::none(),
            FuritenFlags::none()],
        incoming_meld: None,
    };
    engine.jump_to_state(state);
    engine
        .register_action(Action::Discard(Discard {
            tile: t("4m"),
            called_by: Player::new(0),
            declares_riichi: false,
            is_tsumogiri: false,
        }))
        .unwrap();
    engine.register_reaction(Player::new(1), Reaction::Chii(t("5m"), t("6m"))).unwrap();
    let gs = engine.step().unwrap();
    assert_eq!(gs.action_result, ActionResult::Chii);
    assert_eq!(engine.state().core.actor.to_u8(), 1);
    assert_eq!(engine.state().melds[1].len(), 1);
    assert!(matches!(engine.state().melds[1][0], Meld::Chii(_)));
    // the called tile is marked in the discarder's stream
    assert_eq!(engine.state().discards[0][0].called_by.to_u8(), 1);
    // the caller discards without drawing
    assert!(engine.state().core.draw.is_none());
}

#[test]
fn chii_only_from_upstream() {
    let mut engine = Engine::new();
    let wall = riichi::wall::make_sorted_wall([0, 0, 0]);
    engine.begin_round(begin_with(wall, 0, 0));
    let draw = engine.state().core.draw.unwrap();
    engine
        .register_action(Action::Discard(Discard {
            tile: draw,
            called_by: Player::new(0),
            declares_riichi: false,
            is_tsumogiri: true,
        }))
        .unwrap();
    let r = engine.register_reaction(Player::new(2), Reaction::Chii(t("4m"), t("6m")));
    assert_eq!(r, Err(riichi::ReactionError::NotFromCorrectPlayer));
}

#[test]
fn ron_requires_completing_tile() {
    let mut engine = Engine::new();
    let wall = riichi::wall::make_sorted_wall([0, 0, 0]);
    engine.begin_round(begin_with(wall, 0, 0));
    let draw = engine.state().core.draw.unwrap();
    engine
        .register_action(Action::Discard(Discard {
            tile: draw,
            called_by: Player::new(0),
            declares_riichi: false,
            is_tsumogiri: true,
        }))
        .unwrap();
    let r = engine.register_reaction(Player::new(2), Reaction::RonAgari);
    assert_eq!(r, Err(riichi::ReactionError::DoesNotCompleteHand));
}

#[test]
fn riichi_declaration_flows() {
    // a closed waiting hand declares riichi; the flags stick after the turn
    let mut engine = Engine::new();
    let h0 = hand37("234m456p23678s99p");
    let h_junk = hand37("1111222233334s");
    let state = State {
        core: StateCore {
            seq: 0,
            actor: Player::new(0),
            num_drawn_head: 53,
            num_drawn_tail: 0,
            draw: Some(t("1z")),
        },
        closed_hands: [h0, h_junk, h_junk, h_junk],
        melds: [Vec::new(), Vec::new(), Vec::new(), Vec::new()],
        discards: [Vec::new(), Vec::new(), Vec::new(), Vec::new()],
        riichi_flags: [RiichiFlags::none(), RiichiFlags::none(), RiichiFlags::none(),
            RiichiFlags::none()],
        furiten: [FuritenFlags::none(), FuritenFlags::none(), FuritenFlags::none(),
            FuritenFlags::none()],
        incoming_meld: None,
    };
    engine.jump_to_state(state);
    engine
        .register_action(Action::Discard(Discard {
            tile: t("1z"),
            called_by: Player::new(0),
            declares_riichi: true,
            is_tsumogiri: true,
        }))
        .unwrap();
    let gs = engine.step().unwrap();
    assert_eq!(gs.action_result, ActionResult::Pass);
    assert!(engine.state().riichi_flags[0].is_active);
    assert!(engine.state().riichi_flags[0].is_double);
    assert!(engine.state().riichi_flags[0].is_ippatsu);
}

#[test]
fn riichi_needs_wait() {
    // a hand with no waiting reading may not declare riichi
    let mut engine = Engine::new();
    let h0 = hand37("147m258p369s1234z");
    let state = State {
        core: StateCore {
            seq: 0,
            actor: Player::new(0),
            num_drawn_head: 53,
            num_drawn_tail: 0,
            draw: Some(t("5z")),
        },
        closed_hands: [h0, hand37("1111222233334s"), hand37("1111222233334s"), hand37(
            "1111222233334s",
        )],
        melds: [Vec::new(), Vec::new(), Vec::new(), Vec::new()],
        discards: [Vec::new(), Vec::new(), Vec::new(), Vec::new()],
        riichi_flags: [RiichiFlags::none(), RiichiFlags::none(), RiichiFlags::none(),
            RiichiFlags::none()],
        furiten: [FuritenFlags::none(), FuritenFlags::none(), FuritenFlags::none(),
            FuritenFlags::none()],
        incoming_meld: None,
    };
    engine.jump_to_state(state);
    let r = engine.register_action(Action::Discard(Discard {
        tile: t("5z"),
        called_by: Player::new(0),
        declares_riichi: true,
        is_tsumogiri: true,
    }));
    assert_eq!(r, Err(ActionError::NoWaitAfterDiscard));
}

#[test]
fn ankan_and_rinshan_bookkeeping() {
    // declaring a closed kan draws a replacement from the tail
    let mut engine = Engine::new();
    let h0 = hand37("1111m23m456p789s9m");
    let state = State {
        core: StateCore {
            seq: 0,
            actor: Player::new(0),
            num_drawn_head: 53,
            num_drawn_tail: 0,
            draw: Some(t("1z")),
        },
        closed_hands: [h0, hand37("1111222233334s"), hand37("1111222233334s"), hand37(
            "1111222233334s",
        )],
        melds: [Vec::new(), Vec::new(), Vec::new(), Vec::new()],
        discards: [Vec::new(), Vec::new(), Vec::new(), Vec::new()],
        riichi_flags: [RiichiFlags::none(), RiichiFlags::none(), RiichiFlags::none(),
            RiichiFlags::none()],
        furiten: [FuritenFlags::none(), FuritenFlags::none(), FuritenFlags::none(),
            FuritenFlags::none()],
        incoming_meld: None,
    };
    engine.jump_to_state(state);
    engine.register_action(Action::Ankan(t("1m"))).unwrap();
    let gs = engine.step().unwrap();
    assert_eq!(gs.action_result, ActionResult::Pass);
    assert_eq!(engine.state().core.num_drawn_tail, 1);
    assert_eq!(engine.state().core.actor.to_u8(), 0);
    assert_eq!(engine.state().melds[0].len(), 1);
    assert!(matches!(engine.state().melds[0][0], Meld::Ankan(_)));
    assert!(engine.state().core.draw.is_some());
    assert_eq!(engine.state().core.seq, 1);
}

#[test]
fn tsumo_without_win_is_rejected() {
    let mut engine = Engine::new();
    let wall = riichi::wall::make_sorted_wall([0, 0, 0]);
    engine.begin_round(begin_with(wall, 0, 0));
    let draw = engine.state().core.draw.unwrap();
    let r = engine.register_action(Action::TsumoAgari(draw));
    assert_eq!(r, Err(ActionError::TsumoWithoutYaku));
}

#[test]
fn step_without_action_is_rejected() {
    let mut engine = Engine::new();
    let wall = riichi::wall::make_sorted_wall([0, 0, 0]);
    engine.begin_round(begin_with(wall, 0, 0));
    let r = engine.step();
    assert!(matches!(r, Err(ActionError::NotActionPhase)));
}

#[test]
fn kan_of_unheld_tile_is_rejected() {
    let mut engine = Engine::new();
    let wall = riichi::wall::make_sorted_wall([0, 0, 0]);
    engine.begin_round(begin_with(wall, 0, 0));
    // the dealer's sorted hand has no 9s at all
    let r = engine.register_action(Action::Ankan(t("9s")));
    assert_eq!(r, Err(ActionError::KanNotAvailable));
    let r2 = engine.register_action(Action::Kakan(t("1m")));
    assert_eq!(r2, Err(ActionError::KanNotAvailable));
}

#[test]
fn furiten_blocks_ron() {
    // the reactor's own past discard is among their waits: no ron
    let mut engine = Engine::new();
    let h0 = hand37("444m111222333p4m");
    let h2 = hand37("34m234p567p234s99s");
    let h_junk = hand37("1111222233334s");
    let mut d2: Vec<Discard> = Vec::new();
    d2.push(Discard {
        tile: t("2m"),
        called_by: Player::new(2),
        declares_riichi: false,
        is_tsumogiri: true,
    });
    let state = State {
        core: StateCore {
            seq: 6,
            actor: Player::new(0),
            num_drawn_head: 54,
            num_drawn_tail: 0,
            draw: Some(t("5m")),
        },
        closed_hands: [h0, h_junk, h2, h_junk],
        melds: [Vec::new(), Vec::new(), Vec::new(), Vec::new()],
        discards: [Vec::new(), Vec::new(), d2, Vec::new()],
        riichi_flags: [RiichiFlags::none(), RiichiFlags::none(), RiichiFlags::none(),
            RiichiFlags::none()],
        furiten: [FuritenFlags::none(), FuritenFlags::none(), FuritenFlags::none(),
            FuritenFlags::none()],
        incoming_meld: None,
    };
    engine.jump_to_state(state);
    // the actor discards 5m, which completes the waiting hand across --
    // but that hand already discarded its other wait, 2m
    engine
        .register_action(Action::Discard(Discard {
            tile: t("5m"),
            called_by: Player::new(0),
            declares_riichi: false,
            is_tsumogiri: true,
        }))
        .unwrap();
    let r = engine.register_reaction(Player::new(2), Reaction::RonAgari);
    assert_eq!(r, Err(riichi::ReactionError::Furiten));
}

#[test]
fn ron_pays_from_the_discarder() {
    // a clean ron: pinfu, closed ron, 30 fu 1 han; the discarder pays
    let mut engine = Engine::new();
    let h0 = hand37("444m111222333p4m");
    let h2 = hand37("34m234p567p234s99s");
    let h_junk = hand37("1111222233334s");
    let state = State {
        core: StateCore {
            seq: 6,
            actor: Player::new(0),
            num_drawn_head: 54,
            num_drawn_tail: 0,
            draw: Some(t("5m")),
        },
        closed_hands: [h0, h_junk, h2, h_junk],
        melds: [Vec::new(), Vec::new(), Vec::new(), Vec::new()],
        discards: [Vec::new(), Vec::new(), Vec::new(), Vec::new()],
        riichi_flags: [RiichiFlags::none(), RiichiFlags::none(), RiichiFlags::none(),
            RiichiFlags::none()],
        furiten: [FuritenFlags::none(), FuritenFlags::none(), FuritenFlags::none(),
            FuritenFlags::none()],
        incoming_meld: None,
    };
    engine.jump_to_state(state);
    engine
        .register_action(Action::Discard(Discard {
            tile: t("5m"),
            called_by: Player::new(0),
            declares_riichi: false,
            is_tsumogiri: true,
        }))
        .unwrap();
    engine.register_reaction(Player::new(2), Reaction::RonAgari).unwrap();
    let gs = engine.step().unwrap();
    assert_eq!(gs.action_result, ActionResult::RonAgari);
    let end = engine.end().as_ref().unwrap();
    let ag = &end.agari[0];
    // pinfu alone: 1 han, 30 fu closed ron, base 240, payer covers 1000
    assert_eq!(ag.fu, 30);
    assert_eq!(ag.han, 1);
    assert_eq!(ag.points_won, 1000);
    assert_eq!(end.points_delta, [-1000, 0, 1000, 0]);
}

#[test]
fn abort_carries_riichi_deposits() {
    // an abort moves standing deposits into the pot and charges the
    // declarers
    let mut engine = Engine::new();
    let p0: Vec<Tile> = tiles_from_str("19m19p19s1234567z");
    let wall = build_wall(&p0[..13], t("5m"), t("1z"));
    let mut begin = begin_with(wall, 0, 1);
    begin.pot = 1000;
    engine.begin_round(begin);
    // mark an out-of-turn player as having declared riichi earlier
    let mut state_now = riichi::State {
        core: engine.state().core,
        closed_hands: engine.state().closed_hands,
        melds: [Vec::new(), Vec::new(), Vec::new(), Vec::new()],
        discards: [Vec::new(), Vec::new(), Vec::new(), Vec::new()],
        riichi_flags: engine.state().riichi_flags,
        furiten: engine.state().furiten,
        incoming_meld: None,
    };
    state_now.riichi_flags[2] = RiichiFlags { is_active: true, is_double: false, is_ippatsu: false };
    engine.jump_to_state(state_now);
    engine.register_action(Action::AbortNineKinds).unwrap();
    engine.step().unwrap();
    let end = engine.end().as_ref().unwrap();
    assert_eq!(end.points_delta, [0, 0, -1000, 0]);
    assert_eq!(end.pot, 2000);
}

#[test]
fn wall_exhaustion_aborts() {
    // with no draw left after the discard, the round drains out
    let mut engine = Engine::new();
    let h_junk = hand37("1111222233334m");
    let mut spent: Vec<Discard> = Vec::new();
    for _ in 0..69 {
        spent.push(Discard {
            tile: t("5s"),
            called_by: Player::new(3),
            declares_riichi: false,
            is_tsumogiri: true,
        });
    }
    let state = State {
        core: StateCore {
            seq: 70,
            actor: Player::new(0),
            num_drawn_head: 122,
            num_drawn_tail: 0,
            draw: Some(t("5m")),
        },
        closed_hands: [h_junk, h_junk, h_junk, h_junk],
        melds: [Vec::new(), Vec::new(), Vec::new(), Vec::new()],
        discards: [Vec::new(), Vec::new(), Vec::new(), spent],
        riichi_flags: [RiichiFlags::none(), RiichiFlags::none(), RiichiFlags::none(),
            RiichiFlags::none()],
        furiten: [FuritenFlags::none(), FuritenFlags::none(), FuritenFlags::none(),
            FuritenFlags::none()],
        incoming_meld: None,
    };
    engine.jump_to_state(state);
    engine
        .register_action(Action::Discard(Discard {
            tile: t("5m"),
            called_by: Player::new(0),
            declares_riichi: false,
            is_tsumogiri: true,
        }))
        .unwrap();
    let gs = engine.step().unwrap();
    assert_eq!(gs.action_result, ActionResult::AbortWallExhausted);
    assert!(engine.end().is_some());
}

#[test]
fn nagashi_mangan_on_pure_orphan_stream() {
    // an untouched all-terminal/honor stream upgrades the exhaustion abort
    let mut engine = Engine::new();
    let h_junk = hand37("1111222233334m");
    let mut pure: Vec<Discard> = Vec::new();
    for _ in 0..69 {
        pure.push(Discard {
            tile: t("1z"),
            called_by: Player::new(3),
            declares_riichi: false,
            is_tsumogiri: true,
        });
    }
    let state = State {
        core: StateCore {
            seq: 70,
            actor: Player::new(0),
            num_drawn_head: 122,
            num_drawn_tail: 0,
            draw: Some(t("5m")),
        },
        closed_hands: [h_junk, h_junk, h_junk, h_junk],
        melds: [Vec::new(), Vec::new(), Vec::new(), Vec::new()],
        discards: [Vec::new(), Vec::new(), Vec::new(), pure],
        riichi_flags: [RiichiFlags::none(), RiichiFlags::none(), RiichiFlags::none(),
            RiichiFlags::none()],
        furiten: [FuritenFlags::none(), FuritenFlags::none(), FuritenFlags::none(),
            FuritenFlags::none()],
        incoming_meld: None,
    };
    engine.jump_to_state(state);
    engine
        .register_action(Action::Discard(Discard {
            tile: t("5m"),
            called_by: Player::new(0),
            declares_riichi: false,
            is_tsumogiri: true,
        }))
        .unwrap();
    let gs = engine.step().unwrap();
    assert_eq!(gs.action_result, ActionResult::AbortNagashiMangan);
}

#[test]
fn four_wind_abort() {
    // four east-wind discards straight from the deal abort the round
    let mut pool: Vec<Tile> = Vec::new();
    for e in 0..34u8 {
        for _ in 0..4 {
            pool.push(Tile::from_normal_encoding(e).unwrap());
        }
    }
    // one east to each player, junk around them
    let east = t("1z");
    for _ in 0..4 {
        let pos = pool.iter().position(|x| *x == east).unwrap();
        pool.remove(pos);
    }
    let mut wall: Vec<Tile> = Vec::new();
    for _ in 0..4 {
        wall.push(east);
        wall.extend(pool.drain(..12));
    }
    wall.extend(pool.drain(..));
    let wall: [Tile; 136] = wall.try_into().unwrap();
    let mut engine = Engine::new();
    engine.begin_round(begin_with(wall, 0, 0));
    for turn in 0..4 {
        engine
            .register_action(Action::Discard(Discard {
                tile: east,
                called_by: Player::new(0),
                declares_riichi: false,
                is_tsumogiri: false,
            }))
            .unwrap();
        let gs = engine.step().unwrap();
        if turn < 3 {
            assert_eq!(gs.action_result, ActionResult::Pass);
        } else {
            assert_eq!(gs.action_result, ActionResult::AbortFourWind);
        }
    }
    assert_eq!(engine.end().as_ref().unwrap().result, ActionResult::AbortFourWind);
}

#[test]
fn discard_rendering() {
    let plain = Discard::new(t("5m"));
    assert_eq!(plain.to_string(), "discard(5m )");
    let riichi_drop = Discard {
        tile: t("0p"),
        called_by: Player::new(0),
        declares_riichi: true,
        is_tsumogiri: true,
    };
    assert_eq!(riichi_drop.to_string(), "RIICHI!(0p*)");
}
