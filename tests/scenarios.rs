use catan_engine::action::{ActionPayload, GameAction};
use catan_engine::board::{CatanMap, LandTile, Tile};
use catan_engine::resources::ResourceBundle;
use catan_engine::state::{GameConfig, GameError, GamePhase, GameState, MapType, Structure};
use catan_engine::types::{ActionPrompt, ActionType, Resource};

fn land(id: u16, resource: Option<Resource>, number: Option<u8>, nodes: [u16; 6]) -> Tile {
    Tile::Land(LandTile { id, resource, number, nodes })
}

/// Five land tiles: node 3 touches a Wood/3 tile, a Brick/5 tile and the desert;
/// two more tiles lie far away.
fn scenario_map() -> CatanMap {
    CatanMap::from_tiles(vec![
        land(0, Some(Resource::Wood), Some(3), [0, 1, 2, 3, 4, 5]),
        land(1, Some(Resource::Brick), Some(5), [2, 6, 7, 8, 9, 3]),
        land(2, None, None, [3, 10, 11, 12, 13, 4]),
        land(3, Some(Resource::Sheep), Some(6), [20, 21, 22, 23, 24, 25]),
        land(4, Some(Resource::Ore), Some(8), [30, 31, 32, 33, 34, 35]),
    ])
}

fn config(players: usize, vps: u8) -> GameConfig {
    GameConfig { num_players: players, map_type: MapType::Base, vps_to_win: vps, seed: 7 }
}

fn settle(s: &mut GameState, p: usize, node: u16) {
    let a = GameAction::new(p, ActionType::BuildSettlement).with_payload(ActionPayload::Node(node));
    s.step(a).expect("settlement accepted");
}

fn road(s: &mut GameState, p: usize, a: u16, b: u16) {
    let act = GameAction::new(p, ActionType::BuildRoad).with_payload(ActionPayload::Edge((a, b)));
    s.step(act).expect("road accepted");
}

/// Two players through the opening; player 0's second settlement is on node 3.
fn after_setup(vps: u8) -> GameState {
    let mut s = GameState::with_map(config(2, vps), scenario_map());
    settle(&mut s, 0, 20);
    road(&mut s, 0, 20, 21);
    settle(&mut s, 1, 30);
    road(&mut s, 1, 30, 31);
    settle(&mut s, 1, 33);
    road(&mut s, 1, 33, 34);
    settle(&mut s, 0, 3);
    road(&mut s, 0, 3, 4);
    s
}

/// Moves `n` cards of kind `r` from the bank to player `p`, as a payout would.
fn grant(s: &mut GameState, p: usize, r: Resource, n: u8) {
    let mut b = ResourceBundle::zero();
    b.add(r, n);
    s.bank.dispense(&b).expect("bank has the cards");
    s.players[p].add_resources(&b);
}

fn roll(s: &mut GameState, p: usize, a: u8, b: u8) {
    let act = GameAction::new(p, ActionType::Roll).with_payload(ActionPayload::Dice(a, b));
    s.step(act).expect("roll accepted");
}

fn conserved_total(s: &GameState) -> u32 {
    s.bank.resources().total() + s.players.iter().map(|p| p.resources.total()).sum::<u32>()
}

#[test]
fn setup_second_settlement_awards_adjacent_resources() {
    let mut s = GameState::with_map(config(2, 10), scenario_map());
    settle(&mut s, 0, 20);
    road(&mut s, 0, 20, 21);
    settle(&mut s, 1, 30);
    road(&mut s, 1, 30, 31);
    settle(&mut s, 1, 33);
    road(&mut s, 1, 33, 34);
    let before = s.players[0].resources;
    let bank_before = *s.bank.resources();
    settle(&mut s, 0, 3);
    let after = s.players[0].resources;
    assert_eq!(after.get(Resource::Wood), before.get(Resource::Wood) + 1);
    assert_eq!(after.get(Resource::Brick), before.get(Resource::Brick) + 1);
    assert_eq!(after.total(), before.total() + 2);
    assert_eq!(s.bank.resources().get(Resource::Wood), bank_before.get(Resource::Wood) - 1);
    assert_eq!(s.bank.resources().get(Resource::Brick), bank_before.get(Resource::Brick) - 1);
    assert_eq!(s.bank.resources().total(), bank_before.total() - 2);
}

#[test]
fn first_settlement_awards_nothing() {
    let mut s = GameState::with_map(config(2, 10), scenario_map());
    settle(&mut s, 0, 3);
    assert_eq!(s.players[0].resources.total(), 0);
    assert_eq!(s.bank.resources().total(), 95);
}

#[test]
fn seven_roll_requires_discarding_half() {
    let mut s = after_setup(10);
    assert!(matches!(s.phase, GamePhase::Playing));
    let held = s.players[0].resources.total();
    grant(&mut s, 0, Resource::Ore, (9 - held) as u8);
    assert_eq!(s.players[0].resources.total(), 9);
    roll(&mut s, 0, 3, 4);
    assert_eq!(s.pending_prompt, ActionPrompt::Discard);
    assert_eq!(s.current_player, 0);
    assert_eq!(s.discard_targets[0], 4);
    for _ in 0..4 {
        let d = GameAction::new(0, ActionType::Discard).with_payload(ActionPayload::Resource(Resource::Ore));
        s.step(d).expect("discard accepted");
    }
    assert_eq!(s.players[0].resources.total(), 5);
    assert_eq!(s.pending_prompt, ActionPrompt::MoveRobber);
    let extra = GameAction::new(0, ActionType::Discard).with_payload(ActionPayload::Resource(Resource::Ore));
    assert!(s.step(extra).is_err());
    assert_eq!(s.players[0].resources.total(), 5);
    assert_eq!(conserved_total(&s), 95);
}

#[test]
fn maritime_trade_needs_the_exact_rate() {
    let mut s = after_setup(10);
    roll(&mut s, 0, 1, 1);
    let wood = s.players[0].resources.get(Resource::Wood);
    grant(&mut s, 0, Resource::Wood, 4);
    let mut three = ResourceBundle::zero();
    three.add(Resource::Wood, 3);
    let bad = GameAction::new(0, ActionType::MaritimeTrade)
        .with_payload(ActionPayload::MaritimeTrade { give: three, receive: Resource::Ore });
    assert_eq!(s.step(bad).err(), Some(GameError::IllegalAction));
    let bank_wood = s.bank.resources().get(Resource::Wood);
    let bank_ore = s.bank.resources().get(Resource::Ore);
    let ore = s.players[0].resources.get(Resource::Ore);
    let mut four = ResourceBundle::zero();
    four.add(Resource::Wood, 4);
    let good = GameAction::new(0, ActionType::MaritimeTrade)
        .with_payload(ActionPayload::MaritimeTrade { give: four, receive: Resource::Ore });
    s.step(good).expect("four for one accepted");
    assert_eq!(s.bank.resources().get(Resource::Wood), bank_wood + 4);
    assert_eq!(s.bank.resources().get(Resource::Ore), bank_ore - 1);
    assert_eq!(s.players[0].resources.get(Resource::Wood), wood);
    assert_eq!(s.players[0].resources.get(Resource::Ore), ore + 1);
}

#[test]
fn victory_completes_the_game_on_the_step() {
    let mut s = after_setup(3);
    assert_eq!(s.players[0].total_points(), 2);
    roll(&mut s, 0, 1, 1);
    grant(&mut s, 0, Resource::Wheat, 2);
    grant(&mut s, 0, Resource::Ore, 3);
    let city = GameAction::new(0, ActionType::BuildCity).with_payload(ActionPayload::Node(3));
    let outcome = s.step(city).expect("city accepted");
    assert_eq!(s.players[0].total_points(), 3);
    assert!(matches!(s.phase, GamePhase::Completed { winner: Some(0) }));
    assert!(outcome.done);
    assert_eq!(outcome.rewards, vec![1, -1]);
    assert!(s.legal_actions().is_empty());
    let after = GameAction::new(1, ActionType::EndTurn);
    assert_eq!(s.step(after).err(), Some(GameError::GameFinished));
}

#[test]
fn tied_longest_roads_earn_no_bonus() {
    let mut s = after_setup(10);
    // Player 0 owns the six sides of tile 3, player 1 the six sides of tile 4.
    s.players[0].roads.clear();
    s.players[1].roads.clear();
    s.road_occupancy.clear();
    let rings = [(0usize, [20u16, 21, 22, 23, 24, 25]), (1usize, [30u16, 31, 32, 33, 34, 35])];
    for (p, ring) in rings.iter() {
        for k in 0..6 {
            let (a, b) = (ring[k], ring[(k + 1) % 6]);
            let e = if a <= b { (a, b) } else { (b, a) };
            s.players[*p].roads.push(e);
            s.road_occupancy.push((e, *p));
        }
    }
    assert_eq!(s.player_longest_road(0), 6);
    assert_eq!(s.player_longest_road(1), 6);
    let lens = vec![s.player_longest_road(0), s.player_longest_road(1)];
    assert_eq!(catan_engine::rules::unique_leader(&lens, 5), None);
    assert_eq!(catan_engine::rules::unique_leader(&vec![6, 5], 5), Some(0));
    assert_eq!(catan_engine::rules::unique_leader(&vec![4, 4], 5), None);
}

#[test]
fn distance_rule_rejects_neighbouring_settlement() {
    let mut s = GameState::with_map(config(2, 10), scenario_map());
    settle(&mut s, 0, 3);
    road(&mut s, 0, 3, 4);
    let near = GameAction::new(1, ActionType::BuildSettlement).with_payload(ActionPayload::Node(2));
    assert_eq!(s.step(near).err(), Some(GameError::DistanceRuleViolation));
    let same = GameAction::new(1, ActionType::BuildSettlement).with_payload(ActionPayload::Node(3));
    assert_eq!(s.step(same).err(), Some(GameError::NodeOccupied(3)));
}

#[test]
fn out_of_turn_and_bad_player_are_rejected() {
    let mut s = GameState::with_map(config(2, 10), scenario_map());
    let wrong = GameAction::new(1, ActionType::BuildSettlement).with_payload(ActionPayload::Node(3));
    assert_eq!(s.step(wrong).err(), Some(GameError::ActionOutOfTurn { expected: 0, actual: 1 }));
    let bad = GameAction::new(5, ActionType::BuildSettlement).with_payload(ActionPayload::Node(3));
    assert_eq!(s.step(bad).err(), Some(GameError::InvalidPlayer(5)));
    let no_payload = GameAction::new(0, ActionType::BuildSettlement);
    assert_eq!(s.step(no_payload).err(), Some(GameError::InvalidPayload));
    let wrong_kind = GameAction::new(0, ActionType::BuildRoad).with_payload(ActionPayload::Edge((3, 4)));
    assert!(matches!(s.step(wrong_kind).err(), Some(GameError::InvalidPrompt { .. })));
}

#[test]
fn occupancy_records_agree_after_setup() {
    let s = after_setup(10);
    assert_eq!(s.node_occupancy[20], Some(Structure::Settlement { player: 0 }));
    assert_eq!(s.node_occupancy[3], Some(Structure::Settlement { player: 0 }));
    assert_eq!(s.node_occupancy[30], Some(Structure::Settlement { player: 1 }));
    assert!(s.road_occupancy.contains(&((3, 4), 0)));
    assert!(s.players[0].roads.contains(&(3, 4)));
    assert_eq!(s.current_player, 0);
    assert!(s.awaiting_roll);
}

#[test]
fn dice_pay_settlements_cities_and_skip_the_robber() {
    let mut s = after_setup(10);
    let wood = s.players[0].resources.get(Resource::Wood);
    roll(&mut s, 0, 1, 2);
    assert_eq!(s.players[0].resources.get(Resource::Wood), wood + 1);
    s.step(GameAction::new(0, ActionType::EndTurn)).expect("end");
    roll(&mut s, 1, 1, 1);
    s.step(GameAction::new(1, ActionType::EndTurn)).expect("end");
    grant(&mut s, 0, Resource::Wheat, 2);
    grant(&mut s, 0, Resource::Ore, 3);
    roll(&mut s, 0, 1, 1);
    let city = GameAction::new(0, ActionType::BuildCity).with_payload(ActionPayload::Node(3));
    s.step(city).expect("city");
    s.step(GameAction::new(0, ActionType::EndTurn)).expect("end");
    let wood = s.players[0].resources.get(Resource::Wood);
    roll(&mut s, 1, 2, 1);
    assert_eq!(s.players[0].resources.get(Resource::Wood), wood + 2);
    s.robber_tile = 0;
    s.step(GameAction::new(1, ActionType::EndTurn)).expect("end");
    roll(&mut s, 0, 1, 2);
    assert_eq!(s.players[0].resources.get(Resource::Wood), wood + 2);
    assert_eq!(conserved_total(&s), 95);
}

#[test]
fn a_tile_the_bank_cannot_cover_pays_nothing() {
    let mut s = after_setup(10);
    let all_wood = s.bank.resources().get(Resource::Wood);
    grant(&mut s, 1, Resource::Wood, all_wood);
    assert_eq!(s.bank.resources().get(Resource::Wood), 0);
    let wood = s.players[0].resources.get(Resource::Wood);
    roll(&mut s, 0, 1, 2);
    assert_eq!(s.players[0].resources.get(Resource::Wood), wood);
    assert_eq!(conserved_total(&s), 95);
}

#[test]
fn opponent_buildings_cut_roads() {
    let mut s = after_setup(10);
    s.players[0].roads.clear();
    s.road_occupancy.clear();
    s.players[1].roads.clear();
    // Player 0 owns four sides of tile 4, whose corners 30 and 33 hold player 1's
    // settlements: no trail may pass through them.
    for e in [(30u16, 31u16), (31, 32), (32, 33), (33, 34)] {
        s.players[0].roads.push(e);
        s.road_occupancy.push((e, 0));
    }
    assert_eq!(s.player_longest_road(0), 2);
}
