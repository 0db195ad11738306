use catan_engine::bank::{build_development_deck, Bank};
use catan_engine::coords::{cube_to_axial, cube_to_offset, generate_coordinate_system, num_tiles_for, offset_to_cube, CubeCoord};
use catan_engine::players::PlayerState;
use catan_engine::resources::{cost_development, ResourceBundle, ResourceError};
use catan_engine::setup::SetupState;
use catan_engine::types::{ActionPrompt, Color, DevelopmentCard, Resource};

#[test]
fn bundle_arithmetic() {
    let mut b = ResourceBundle::from_counts([1, 2, 3, 4, 5]);
    assert_eq!(b.total(), 15);
    b.add(Resource::Ore, 250);
    assert_eq!(b.get(Resource::Ore), 255);
    assert_eq!(
        b.subtract(Resource::Wood, 2),
        Err(ResourceError::InsufficientResource { resource: Resource::Wood, available: 1, requested: 2 })
    );
    assert_eq!(b.get(Resource::Wood), 1);
    assert_eq!(b.subtract(Resource::Wood, 1), Ok(()));
    assert_eq!(b.get(Resource::Wood), 0);
    let need = ResourceBundle::from_counts([0, 3, 0, 0, 0]);
    assert!(!b.can_afford(&need));
    assert_eq!(b.subtract_bundle(&need), Err(ResourceError::InsufficientBundle));
    assert_eq!(b.counts(), [0, 2, 3, 4, 255]);
    let ok = ResourceBundle::from_counts([0, 2, 1, 0, 5]);
    assert_eq!(b.subtract_bundle(&ok), Ok(()));
    assert_eq!(b.counts(), [0, 0, 2, 4, 250]);
    let mut c = ResourceBundle::zero();
    assert!(c.is_empty());
    c.add_bundle(&ResourceBundle::from_counts([1, 0, 0, 0, 200]));
    c.add_bundle(&ResourceBundle::from_counts([0, 0, 0, 0, 100]));
    assert_eq!(c.counts(), [1, 0, 0, 0, 255]);
    let order: Vec<Resource> = c.iter().into_iter().map(|(r, _)| r).collect();
    assert_eq!(order, vec![Resource::Wood, Resource::Brick, Resource::Sheep, Resource::Wheat, Resource::Ore]);
}

#[test]
fn bank_dispense_is_all_or_nothing() {
    let mut rng = <rand::rngs::StdRng as rand::SeedableRng>::seed_from_u64(1);
    let mut bank = Bank::standard(&mut rng);
    assert_eq!(bank.development_deck_len(), 25);
    assert_eq!(bank.available(Resource::Sheep), 19);
    let too_much = ResourceBundle::from_counts([1, 20, 0, 0, 0]);
    assert!(bank.dispense(&too_much).is_err());
    assert_eq!(bank.resources().total(), 95);
    assert!(bank.dispense(&ResourceBundle::from_counts([1, 2, 0, 0, 0])).is_ok());
    assert_eq!(bank.resources().total(), 92);
    bank.receive(&ResourceBundle::from_counts([1, 2, 0, 0, 0]));
    assert_eq!(bank.resources().total(), 95);
}

#[test]
fn development_deck_composition() {
    let deck = build_development_deck();
    assert_eq!(deck.len(), 25);
    let count = |c: DevelopmentCard| deck.iter().filter(|x| **x == c).count();
    assert_eq!(count(DevelopmentCard::Knight), 14);
    assert_eq!(count(DevelopmentCard::VictoryPoint), 5);
    assert_eq!(count(DevelopmentCard::RoadBuilding), 2);
    assert_eq!(count(DevelopmentCard::YearOfPlenty), 2);
    assert_eq!(count(DevelopmentCard::Monopoly), 2);
}

#[test]
fn buying_a_card_charges_and_draws() {
    let mut rng = <rand::rngs::StdRng as rand::SeedableRng>::seed_from_u64(2);
    let mut bank = Bank::standard(&mut rng);
    let mut hand = ResourceBundle::from_counts([0, 0, 1, 1, 0]);
    assert!(bank.buy_development_card(&mut rng, &mut hand).is_err());
    assert_eq!(hand.total(), 2);
    let mut hand = ResourceBundle::from_counts([0, 0, 1, 1, 1]);
    let card = bank.buy_development_card(&mut rng, &mut hand).expect("affordable");
    assert!(card.is_some());
    assert_eq!(hand.total(), 0);
    assert_eq!(bank.development_deck_len(), 24);
    assert_eq!(bank.resources().total(), 98);
    assert_eq!(cost_development().counts(), [0, 0, 1, 1, 1]);
    while bank.draw_development_card().is_some() {}
    let mut hand = ResourceBundle::from_counts([0, 0, 1, 1, 1]);
    assert_eq!(bank.buy_development_card(&mut rng, &mut hand), Ok(None));
    assert_eq!(hand.total(), 0);
}

#[test]
fn dev_cards_mature_next_turn_and_play_once() {
    let mut p = PlayerState::new(Color::Blue);
    p.add_dev_card(DevelopmentCard::Knight);
    p.add_dev_card(DevelopmentCard::VictoryPoint);
    assert_eq!(p.victory_points, 1);
    assert!(!p.can_play_dev_card(DevelopmentCard::Knight));
    p.reset_for_new_turn();
    assert_eq!(p.matured_dev_card_count(DevelopmentCard::Knight), 1);
    assert!(p.can_play_dev_card(DevelopmentCard::Knight));
    assert!(p.consume_dev_card(DevelopmentCard::Knight));
    p.record_dev_card_play(DevelopmentCard::Knight);
    assert_eq!(p.knights_played, 1);
    assert!(!p.consume_dev_card(DevelopmentCard::Knight));
    assert!(p.has_played_dev_card_this_turn);
    p.dev_cards.push(DevelopmentCard::Monopoly);
    assert!(!p.can_play_dev_card(DevelopmentCard::Monopoly));
}

#[test]
fn points_and_limits() {
    let mut p = PlayerState::new(Color::Red);
    p.settlements = vec![1, 2];
    p.cities = vec![3];
    p.roads = vec![(1, 2)];
    p.victory_points = 1;
    p.has_longest_road = true;
    assert_eq!(p.bonus_points(), 2);
    assert_eq!(p.public_points(), 6);
    assert_eq!(p.total_points(), 7);
    assert_eq!(p.total_structures(), 4);
    assert!(!p.settlement_limit_reached());
    p.settlements = vec![1, 2, 4, 5, 6];
    assert!(p.settlement_limit_reached());
    assert!(!p.city_limit_reached());
    assert!(!p.road_limit_reached());
}

#[test]
fn setup_script_order() {
    let mut s = SetupState::new(3);
    let mut order = Vec::new();
    while !s.is_complete() {
        order.push((s.current_player().unwrap(), s.current_prompt().unwrap(), s.is_second_settlement()));
        s.advance();
    }
    assert_eq!(order.len(), 12);
    let players: Vec<usize> = order.iter().map(|x| x.0).collect();
    assert_eq!(players, vec![0, 0, 1, 1, 2, 2, 2, 2, 1, 1, 0, 0]);
    assert_eq!(order[0].1, ActionPrompt::BuildInitialSettlement);
    assert_eq!(order[1].1, ActionPrompt::BuildInitialRoad);
    assert!(!order[4].2);
    assert!(order[6].2);
    assert!(!order[7].2);
    assert_eq!(s.current_player(), None);
}

#[test]
fn coordinates() {
    assert_eq!(num_tiles_for(0), 1);
    assert_eq!(num_tiles_for(2), 19);
    assert_eq!(num_tiles_for(3), 37);
    let cells = generate_coordinate_system(2);
    assert_eq!(cells.len(), 19);
    assert!(cells.iter().all(|c| c.x + c.y + c.z == 0));
    let c = CubeCoord::new(1, -2, 1);
    assert_eq!(cube_to_axial(c), (1, 1));
    assert_eq!(cube_to_offset(c), (1, 1));
    assert_eq!(offset_to_cube((1, 1)), c);
    let d = CubeCoord::new(-2, 3, -1);
    assert_eq!(offset_to_cube(cube_to_offset(d)), d);
    assert_eq!(CubeCoord::from_offset(0, 0), CubeCoord::new(0, 0, 0));
    assert_eq!(c.neighbors().len(), 6);
    assert_eq!(c.add(CubeCoord::new(1, 0, -1)), CubeCoord::new(2, -2, 0));
}
