use catan_engine::action::{ActionPayload, GameAction};
use catan_engine::board::{CatanMap, LandTile, Port, Tile};
use catan_engine::coords::Direction;
use catan_engine::env::{observation_from_state, RustEnv};
use catan_engine::game::{BasePlayer, Game};
use catan_engine::resources::ResourceBundle;
use catan_engine::search::{list_pruned_actions, number_ways, roll_outcomes, steal_outcomes};
use catan_engine::state::{GameConfig, GameError, GamePhase, GameState, MapType};
use catan_engine::types::{ActionPrompt, ActionType, Color, DevelopmentCard, Resource};

fn land(id: u16, resource: Option<Resource>, number: Option<u8>, nodes: [u16; 6]) -> Tile {
    Tile::Land(LandTile { id, resource, number, nodes })
}

/// Three tiles around node 3, two far tiles, and a wood port serving nodes 20 and 25
/// next to a generic port serving nodes 30 and 35.
fn port_map() -> CatanMap {
    CatanMap::from_tiles(vec![
        land(0, Some(Resource::Wood), Some(3), [0, 1, 2, 3, 4, 5]),
        land(1, Some(Resource::Brick), Some(5), [2, 6, 7, 8, 9, 3]),
        land(2, None, None, [3, 10, 11, 12, 13, 4]),
        land(3, Some(Resource::Sheep), Some(6), [20, 21, 22, 23, 24, 25]),
        land(4, Some(Resource::Ore), Some(8), [30, 31, 32, 33, 34, 35]),
        Tile::Port(Port { id: 0, resource: Some(Resource::Wood), direction: Direction::West, nodes: [40, 41, 42, 43, 20, 25] }),
        Tile::Port(Port { id: 1, resource: None, direction: Direction::West, nodes: [50, 51, 52, 53, 30, 35] }),
    ])
}

fn act(p: usize, t: ActionType, payload: ActionPayload) -> GameAction {
    GameAction::new(p, t).with_payload(payload)
}

fn opened(vps: u8) -> GameState {
    let config = GameConfig { num_players: 2, map_type: MapType::Base, vps_to_win: vps, seed: 1 };
    let mut s = GameState::with_map(config, port_map());
    let script = [
        act(0, ActionType::BuildSettlement, ActionPayload::Node(20)),
        act(0, ActionType::BuildRoad, ActionPayload::Edge((20, 21))),
        act(1, ActionType::BuildSettlement, ActionPayload::Node(30)),
        act(1, ActionType::BuildRoad, ActionPayload::Edge((30, 31))),
        act(1, ActionType::BuildSettlement, ActionPayload::Node(33)),
        act(1, ActionType::BuildRoad, ActionPayload::Edge((33, 34))),
        act(0, ActionType::BuildSettlement, ActionPayload::Node(3)),
        act(0, ActionType::BuildRoad, ActionPayload::Edge((3, 4))),
    ];
    for a in script {
        s.step(a).expect("opening placement");
    }
    s
}

fn grant(s: &mut GameState, p: usize, r: Resource, n: u8) {
    let mut b = ResourceBundle::zero();
    b.add(r, n);
    s.bank.dispense(&b).expect("bank has the cards");
    s.players[p].add_resources(&b);
}

fn roll_two(s: &mut GameState, p: usize) {
    s.step(act(p, ActionType::Roll, ActionPayload::Dice(1, 1))).expect("roll");
}

fn total(s: &GameState) -> u32 {
    s.bank.resources().total() + s.players.iter().map(|p| p.resources.total()).sum::<u32>()
}

#[test]
fn port_rates() {
    let mut s = opened(10);
    roll_two(&mut s, 0);
    assert_eq!(s.maritime_rate(0, Resource::Wood), 2);
    assert_eq!(s.maritime_rate(0, Resource::Ore), 4);
    assert_eq!(s.maritime_rate(1, Resource::Ore), 3);
    grant(&mut s, 0, Resource::Wood, 2);
    let mut two = ResourceBundle::zero();
    two.add(Resource::Wood, 2);
    s.step(act(0, ActionType::MaritimeTrade, ActionPayload::MaritimeTrade { give: two, receive: Resource::Brick }))
        .expect("two-for-one with a wood port");
    assert_eq!(total(&s), 95);
}

#[test]
fn knights_decide_the_largest_army() {
    let mut s = opened(10);
    s.players[0].dev_cards = vec![DevelopmentCard::Knight; 3];
    for _ in 0..3 {
        s.step(GameAction::new(0, ActionType::PlayKnightCard)).expect("knight");
        assert_eq!(s.pending_prompt, ActionPrompt::MoveRobber);
        let second = GameAction::new(0, ActionType::PlayKnightCard);
        assert_eq!(
            s.step(second).err(),
            Some(GameError::InvalidPrompt { prompt: ActionPrompt::MoveRobber, action: ActionType::PlayKnightCard })
        );
        s.step(act(0, ActionType::MoveRobber, ActionPayload::Robber { tile_id: 1, victim: None, resource: None })).expect("robber");
        assert_eq!(s.robber_tile, 1);
        roll_two(&mut s, 0);
        s.step(GameAction::new(0, ActionType::EndTurn)).expect("end turn");
        roll_two(&mut s, 1);
        s.step(GameAction::new(1, ActionType::EndTurn)).expect("end turn");
    }
    assert_eq!(s.players[0].knights_played, 3);
    assert!(s.players[0].has_largest_army);
    assert_eq!(s.players[0].total_points(), 4);
}

#[test]
fn monopoly_takes_every_card_of_a_kind() {
    let mut s = opened(10);
    roll_two(&mut s, 0);
    grant(&mut s, 1, Resource::Sheep, 5);
    let theirs = s.players[1].resources.get(Resource::Sheep);
    let mine = s.players[0].resources.get(Resource::Sheep);
    s.players[0].dev_cards = vec![DevelopmentCard::Monopoly];
    s.step(act(0, ActionType::PlayMonopoly, ActionPayload::Resource(Resource::Sheep))).expect("monopoly");
    assert_eq!(s.players[1].resources.get(Resource::Sheep), 0);
    assert_eq!(s.players[0].resources.get(Resource::Sheep), mine + theirs);
    assert_eq!(total(&s), 95);
}

#[test]
fn year_of_plenty_draws_one_or_two() {
    let mut s = opened(10);
    roll_two(&mut s, 0);
    s.players[0].dev_cards = vec![DevelopmentCard::YearOfPlenty];
    let three = ResourceBundle::from_counts([1, 1, 1, 0, 0]);
    assert_eq!(s.step(act(0, ActionType::PlayYearOfPlenty, ActionPayload::Resources(three))).err(), Some(GameError::InvalidPayload));
    let before = s.players[0].resources.get(Resource::Ore);
    let two = ResourceBundle::from_counts([0, 0, 0, 0, 2]);
    s.step(act(0, ActionType::PlayYearOfPlenty, ActionPayload::Resources(two))).expect("year of plenty");
    assert_eq!(s.players[0].resources.get(Resource::Ore), before + 2);
    assert!(s.players[0].dev_cards.is_empty());
    assert_eq!(total(&s), 95);
}

#[test]
fn road_building_gives_two_free_roads() {
    let mut s = opened(10);
    roll_two(&mut s, 0);
    s.players[0].resources = ResourceBundle::zero();
    s.bank.resources = ResourceBundle::from_counts([19, 19, 19, 19, 19]);
    for p in 1..2 {
        let b = s.players[p].resources;
        s.bank.dispense(&b).unwrap();
    }
    s.players[0].dev_cards = vec![DevelopmentCard::RoadBuilding];
    s.step(GameAction::new(0, ActionType::PlayRoadBuilding)).expect("road building");
    s.step(act(0, ActionType::BuildRoad, ActionPayload::Edge((21, 22)))).expect("free road");
    s.step(act(0, ActionType::BuildRoad, ActionPayload::Edge((22, 23)))).expect("free road");
    assert_eq!(s.step(act(0, ActionType::BuildRoad, ActionPayload::Edge((23, 24)))).err(), Some(GameError::InsufficientResources));
    assert_eq!(s.players[0].roads.len(), 4);
    assert_eq!(total(&s), 95);
}

#[test]
fn domestic_trade_round() {
    let mut s = opened(10);
    roll_two(&mut s, 0);
    grant(&mut s, 0, Resource::Wheat, 1);
    grant(&mut s, 1, Resource::Ore, 1);
    let give = ResourceBundle::from_counts([0, 0, 0, 1, 0]);
    let receive = ResourceBundle::from_counts([0, 0, 0, 0, 1]);
    s.step(act(0, ActionType::OfferTrade, ActionPayload::Trade { give, receive, partner: None })).expect("offer");
    assert_eq!(s.pending_prompt, ActionPrompt::DecideTrade);
    assert_eq!(s.current_player, 1);
    s.step(GameAction::new(1, ActionType::AcceptTrade)).expect("accept");
    assert_eq!(s.pending_prompt, ActionPrompt::DecideAcceptees);
    assert_eq!(s.current_player, 0);
    let legal = s.legal_actions().clone();
    assert_eq!(legal.len(), 2);
    let wheat0 = s.players[0].resources.get(Resource::Wheat);
    let ore0 = s.players[0].resources.get(Resource::Ore);
    s.step(act(0, ActionType::ConfirmTrade, ActionPayload::Trade { give, receive, partner: Some(1) })).expect("confirm");
    assert_eq!(s.players[0].resources.get(Resource::Wheat), wheat0 - 1);
    assert_eq!(s.players[0].resources.get(Resource::Ore), ore0 + 1);
    assert!(s.trade_state.is_none());
    assert_eq!(s.pending_prompt, ActionPrompt::PlayTurn);
    assert_eq!(total(&s), 95);
}

#[test]
fn rejected_offer_lapses() {
    let mut s = opened(10);
    roll_two(&mut s, 0);
    grant(&mut s, 0, Resource::Wheat, 1);
    let give = ResourceBundle::from_counts([0, 0, 0, 1, 0]);
    let receive = ResourceBundle::from_counts([0, 0, 0, 0, 1]);
    s.step(act(0, ActionType::OfferTrade, ActionPayload::Trade { give, receive, partner: None })).expect("offer");
    s.step(GameAction::new(1, ActionType::RejectTrade)).expect("reject");
    assert!(s.trade_state.is_none());
    assert_eq!(s.current_player, 0);
    assert_eq!(s.pending_prompt, ActionPrompt::PlayTurn);
}

#[test]
fn robber_steal_is_recorded_and_replayable() {
    let mut s = opened(10);
    roll_two(&mut s, 0);
    s.players[0].dev_cards = vec![DevelopmentCard::Knight];
    s.step(GameAction::new(0, ActionType::PlayKnightCard)).expect("knight");
    let held = s.players[1].resources.total();
    assert!(held > 0);
    s.step(act(0, ActionType::MoveRobber, ActionPayload::Robber { tile_id: 4, victim: Some(1), resource: None })).expect("robber");
    assert_eq!(s.players[1].resources.total(), held - 1);
    match s.action_log().last().unwrap().payload {
        ActionPayload::Robber { resource: Some(_), victim: Some(1), tile_id: 4 } => {}
        other => panic!("steal not recorded: {:?}", other),
    }
    let bad = act(0, ActionType::MoveRobber, ActionPayload::Robber { tile_id: 99, victim: None, resource: None });
    assert!(s.step(bad).is_err());
}

#[test]
fn fresh_cards_wait_a_turn() {
    let mut s = opened(10);
    roll_two(&mut s, 0);
    grant(&mut s, 0, Resource::Sheep, 1);
    grant(&mut s, 0, Resource::Wheat, 1);
    grant(&mut s, 0, Resource::Ore, 1);
    s.step(GameAction::new(0, ActionType::BuyDevelopmentCard)).expect("buy");
    assert_eq!(s.players[0].fresh_dev_cards.len(), 1);
    assert!(s.players[0].dev_cards.is_empty());
    assert_eq!(s.bank.development_deck_len(), 24);
    assert!(matches!(s.action_log().last().unwrap().payload, ActionPayload::DevelopmentCard(_)));
    s.step(GameAction::new(0, ActionType::EndTurn)).expect("end");
    assert_eq!(s.players[0].dev_cards.len(), 1);
    assert!(s.players[0].fresh_dev_cards.is_empty());
}

#[test]
fn search_helpers() {
    assert_eq!(number_ways(7), 6);
    assert_eq!(number_ways(2), 1);
    assert_eq!(number_ways(12), 1);
    assert_eq!(number_ways(1), 0);
    let outcomes = roll_outcomes();
    assert_eq!(outcomes.len(), 11);
    assert_eq!(outcomes[0], (1, 1, 1));
    assert_eq!(outcomes[5], (3, 4, 6));
    assert_eq!(outcomes.iter().map(|o| o.2 as u32).sum::<u32>(), 36);
    let hand = ResourceBundle::from_counts([3, 0, 0, 0, 1]);
    assert_eq!(steal_outcomes(&hand), vec![Resource::Wood, Resource::Ore]);
}

#[test]
fn pruning_drops_single_tile_sites() {
    let config = GameConfig { num_players: 2, map_type: MapType::Base, vps_to_win: 10, seed: 8 };
    let game = Game::new(config);
    let all = game.state.legal_actions().len();
    let pruned = list_pruned_actions(&game);
    assert!(pruned.len() < all);
    for a in &pruned {
        if let ActionPayload::Node(n) = a.payload {
            assert_ne!(game.state.map.adjacent_tiles[n as usize].len(), 1);
        }
    }
}

struct FirstChoice;

impl BasePlayer for FirstChoice {
    fn decide(&self, _game: &Game, actions: &[GameAction]) -> Option<GameAction> {
        actions.first().copied()
    }
}

#[test]
fn session_ticks_and_observation() {
    let config = GameConfig { num_players: 3, map_type: MapType::Mini, vps_to_win: 10, seed: 4 };
    let mut game = Game::new(config);
    let seats = [FirstChoice, FirstChoice, FirstChoice];
    for _ in 0..40 {
        game.play_tick(&seats);
    }
    assert!(game.state.action_log().len() > 10);
    assert!(game.winning_color().is_none() || matches!(game.state.phase, GamePhase::Completed { .. }));
    let copy = game.copy();
    assert_eq!(copy.state.action_log(), game.state.action_log());
    let obs = observation_from_state(&game.state);
    assert_eq!(obs.players.len(), 3);
    assert_eq!(obs.players[0].color, Color::Red);
    assert_eq!(obs.players[2].color, Color::Orange);
    let mut env = RustEnv::new(config);
    let first = env.game_state().legal_actions()[0];
    let result = env.step(first).expect("legal action");
    assert_eq!(result.rewards, vec![0, 0, 0]);
    assert!(!result.done);
    let o = env.reset();
    assert_eq!(o.current_player, 0);
}

#[test]
fn tiles_and_sites_for_the_value_function() {
    let s = opened(10);
    let mut tiles = s.controlled_tiles(0);
    tiles.sort();
    assert_eq!(tiles, vec![0, 1, 2, 3]);
    let mut theirs = s.controlled_tiles(1);
    theirs.sort();
    assert_eq!(theirs, vec![4]);
    let free = s.buildable_nodes(0);
    assert!(free > 0);
    assert!(free < s.map.land_nodes.len());
    // Node 0 is two steps from node 3 (0-5-4-3 ring of tile 0): its neighbours 1 and 5 are free.
    assert!(s.node_occupancy[0].is_none());
}

#[test]
fn first_turn_offers_only_the_roll() {
    let s = opened(10);
    assert_eq!(s.legal_actions().len(), 1);
    assert_eq!(s.legal_actions()[0], GameAction::new(0, ActionType::Roll));
}

#[test]
fn copies_are_independent_and_play_ends() {
    let config = GameConfig { num_players: 2, map_type: MapType::Mini, vps_to_win: 4, seed: 12 };
    let mut game = Game::new(config);
    let copy = game.copy();
    assert_eq!(copy.id, game.id);
    let seats = [FirstChoice, FirstChoice];
    game.play(&seats);
    assert!(game.state.action_log().len() > copy.state.action_log().len());
    assert!(copy.state.action_log().is_empty());
    assert!(matches!(copy.state.phase, GamePhase::Setup(_)));
}
