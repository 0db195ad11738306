use catan_engine::action::{ActionPayload, GameAction};
use catan_engine::state::{GameConfig, GamePhase, GameState, MapType, Structure};
use catan_engine::types::ActionType;

fn phase_rank(p: &GamePhase) -> u8 {
    match p {
        GamePhase::Setup(_) => 0,
        GamePhase::Playing => 1,
        GamePhase::Completed { .. } => 2,
    }
}

fn total_cards(s: &GameState) -> u32 {
    s.bank.resources().total() + s.players.iter().map(|p| p.resources.total()).sum::<u32>()
}

fn check_occupancy(s: &GameState) {
    for (n, occ) in s.node_occupancy.iter().enumerate() {
        let node = n as u16;
        for (p, player) in s.players.iter().enumerate() {
            assert_eq!(player.settlements.contains(&node), *occ == Some(Structure::Settlement { player: p }));
            assert_eq!(player.cities.contains(&node), *occ == Some(Structure::City { player: p }));
        }
    }
    for (p, player) in s.players.iter().enumerate() {
        for e in &player.roads {
            assert!(s.road_occupancy.contains(&(*e, p)));
        }
    }
    for (e, p) in &s.road_occupancy {
        assert!(s.players[*p].roads.contains(e));
    }
}

fn check_distance(s: &GameState) {
    for (a, list) in s.map.node_neighbors.iter().enumerate() {
        for b in list {
            assert!(!(s.node_occupancy[a].is_some() && s.node_occupancy[*b as usize].is_some()));
        }
    }
}

/// A small deterministic chooser, so runs are reproducible.
fn pick(seed: &mut u64, n: usize) -> usize {
    *seed = seed.wrapping_mul(6364136223846793005).wrapping_add(1442695040888963407);
    ((*seed >> 33) as usize) % n
}

/// Prefers anything but ending the turn, so games make progress.
fn pick_action(s: &GameState, seed: &mut u64) -> GameAction {
    let legal = s.legal_actions();
    let building: Vec<&GameAction> = legal
        .iter()
        .filter(|a| !matches!(a.action_type, ActionType::EndTurn))
        .collect();
    if !building.is_empty() && pick(seed, 4) != 0 {
        *building[pick(seed, building.len())]
    } else {
        legal[pick(seed, legal.len())]
    }
}

fn run(config: GameConfig, steps: usize, check_all_legal: bool) -> GameState {
    let mut s = GameState::new(config);
    let mut seed = config.seed ^ 0x9e3779b97f4a7c15;
    for _ in 0..steps {
        if s.legal_actions().is_empty() {
            break;
        }
        if check_all_legal {
            for a in s.legal_actions().iter() {
                let mut copy = s.clone();
                assert!(copy.step(*a).is_ok(), "legal action rejected: {:?}", a);
            }
        }
        let before_rank = phase_rank(&s.phase);
        let action = pick_action(&s, &mut seed);
        s.step(action).expect("chosen legal action accepted");
        assert!(phase_rank(&s.phase) >= before_rank);
        assert_eq!(total_cards(&s), 95);
        check_occupancy(&s);
        check_distance(&s);
    }
    s
}

#[test]
fn legal_actions_are_all_accepted() {
    let config = GameConfig { num_players: 3, map_type: MapType::Base, vps_to_win: 10, seed: 11 };
    run(config, 250, true);
}

#[test]
fn invariants_hold_through_long_games() {
    for seed in 0..3u64 {
        let config = GameConfig { num_players: 4, map_type: MapType::Base, vps_to_win: 10, seed };
        let s = run(config, 1500, false);
        assert!(phase_rank(&s.phase) >= 1);
    }
}

#[test]
fn mini_and_tournament_maps_play() {
    let mini = GameConfig { num_players: 2, map_type: MapType::Mini, vps_to_win: 6, seed: 3 };
    run(mini, 400, true);
    let tour = GameConfig { num_players: 2, map_type: MapType::Tournament, vps_to_win: 6, seed: 3 };
    run(tour, 400, false);
}

#[test]
fn replaying_the_log_reproduces_the_game() {
    let config = GameConfig { num_players: 3, map_type: MapType::Base, vps_to_win: 10, seed: 5 };
    let first = run(config, 600, false);
    let mut second = GameState::new(config);
    for a in first.action_log().iter() {
        second.step(*a).expect("replayed action accepted");
    }
    assert_eq!(first.action_log(), second.action_log());
    assert_eq!(first.node_occupancy, second.node_occupancy);
    assert_eq!(first.road_occupancy, second.road_occupancy);
    assert_eq!(first.turn, second.turn);
    assert_eq!(first.current_player, second.current_player);
    assert_eq!(first.bank.resources(), second.bank.resources());
    for (a, b) in first.players.iter().zip(second.players.iter()) {
        assert_eq!(a.resources, b.resources);
        assert_eq!(a.dev_cards, b.dev_cards);
        assert_eq!(a.victory_points, b.victory_points);
    }
}

#[test]
fn same_seed_gives_same_board() {
    let config = GameConfig { num_players: 4, map_type: MapType::Base, vps_to_win: 10, seed: 99 };
    let a = GameState::new(config);
    let b = GameState::new(config);
    assert_eq!(a.map.land_tiles, b.map.land_tiles);
    assert_eq!(a.map.land_tiles.len(), 19);
    assert_eq!(a.map.land_nodes.len(), 54);
    assert_eq!(a.legal_actions().len(), 54);
    assert!(a.legal_actions().iter().all(|x| matches!(x.payload, ActionPayload::Node(_))));
}
