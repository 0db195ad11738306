use vstd::prelude::*;

use crate::action::{ActionPayload, GameAction};
use crate::placement::edge_contains_node;
use crate::setup::{setup_player, setup_prompt, SetupState};
use crate::state::{phase_rank, GameError, GameEvent, GamePhase, GameState, StepOutcome};
use crate::bank::card_count;
use crate::cards::others_holding;
use crate::players::MAX_CITIES;
use crate::resources::{city_price, road_price, settlement_price};
use crate::trading::{single_kind_of, single_resource_bundle_spec_ok};
use crate::turn::dice_sum_of;
use crate::types::{spec_resource_index, ActionPrompt, ActionType, DevelopmentCard};

verus! {

/// Whether someone reached the target depends on the players and the target only.
pub proof fn lemma_reached_same(a: GameState, b: GameState)
    requires
        a.players == b.players,
        a.config == b.config,
    ensures
        a.someone_reached() == b.someone_reached(),
{
    if a.someone_reached() {
        let q = choose|q: int| 0 <= q < a.num_players() && #[trigger] a.reached_target(q);
        assert(b.reached_target(q));
    }
    if b.someone_reached() {
        let q = choose|q: int| 0 <= q < b.num_players() && #[trigger] b.reached_target(q);
        assert(a.reached_target(q));
    }
}

impl GameState {
    /// During the opening, the pending seat and prompt are the ones of the script step.
    pub open spec fn setup_synced(&self) -> bool {
        self.phase matches GamePhase::Setup(st) ==> {
            &&& !st.done()
            &&& self.current_player == setup_player(st.num_players as int, st.cursor as int)
            &&& self.pending_prompt == setup_prompt(st.cursor as int)
            &&& self.road_building_player.is_none()
            &&& forall|q: int| 0 <= q < self.players@.len() ==> (#[trigger] self.players@[q]).dev_cards@.len() == 0
        }
    }

    /// `a` is an opening placement that the current step of the script takes.
    pub open spec fn accepts_setup(&self, a: GameAction) -> bool {
        let p = self.current_player;
        &&& self.phase matches GamePhase::Setup(_)
        &&& a.player_index == p
        &&& {
            ||| (self.pending_prompt == ActionPrompt::BuildInitialSettlement && a.action_type == ActionType::BuildSettlement
                && (a.payload matches ActionPayload::Node(n) && self.settlement_site_ok(p as int, n, false)))
            ||| (self.pending_prompt == ActionPrompt::BuildInitialRoad && a.action_type == ActionType::BuildRoad
                && (a.payload matches ActionPayload::Edge(e) && self.road_site_ok(p as int, e, false)
                    && (self.setup_pending_roads@[p as int] matches Some(anchor) ==> e.0 == anchor || e.1 == anchor)))
        }
    }

    /// `a` comes from the player whose decision is pending and is one the handler of
    /// the pending prompt takes.
    pub open spec fn accepts_play(&self, a: GameAction) -> bool {
        &&& a.player_index == self.current_player
        &&& match self.pending_prompt {
            ActionPrompt::PlayTurn => self.accepts_turn_action(a),
            ActionPrompt::MoveRobber => self.accepts_robber_move(a),
            ActionPrompt::Discard => self.accepts_discard(a),
            ActionPrompt::DecideTrade => self.accepts_trade_response(a),
            ActionPrompt::DecideAcceptees => self.accepts_trade_confirmation(a),
            _ => false,
        }
    }

    /// Every cached legal action is one that the handler of the current phase and
    /// prompt takes.
    pub open spec fn legal_cached(&self) -> bool {
        &&& (self.phase matches GamePhase::Setup(_) ==> forall|k: int| 0 <= k < self.available_actions@.len()
            ==> self.accepts_setup(#[trigger] self.available_actions@[k]))
        &&& (self.phase == GamePhase::Playing ==> forall|k: int| 0 <= k < self.available_actions@.len()
            ==> self.accepts_play(#[trigger] self.available_actions@[k]))
        &&& (self.phase matches GamePhase::Completed { .. } ==> self.available_actions@.len() == 0)
    }

    /// The invariant of every state that `new` builds and `step` leads to.
    pub open spec fn valid(&self) -> bool {
        &&& self.wf()
        &&& (self.phase matches GamePhase::Completed { winner } ==> winner.is_some() && winner.unwrap() < self.num_players())
        &&& self.setup_synced()
        &&& self.legal_cached()
    }

    /// Player `q` has at least the points needed to win.
    pub open spec fn reached_target(&self, q: int) -> bool {
        self.players@[q].spec_total_points() >= self.config.vps_to_win
    }

    /// Some player has reached the target.
    pub open spec fn someone_reached(&self) -> bool {
        exists|q: int| 0 <= q < self.num_players() && #[trigger] self.reached_target(q)
    }

    /// Handles a placement of the opening script.
    pub(crate) fn handle_setup_action(&mut self, action: &mut GameAction, events: &mut Vec<GameEvent>) -> (r: Result<(), GameError>)
        requires
            old(self).wf(),
            old(self).phase matches GamePhase::Setup(_),
        ensures
            final(self).wf(),
            r.is_err() ==> *final(self) == *old(self),
            final(self).config == old(self).config,
            final(self).map == old(self).map,
            final(self).phase matches GamePhase::Setup(_) || final(self).phase == GamePhase::Playing,
            *final(action) == *old(action),
            final(self).actions == old(self).actions,
            old(self).setup_synced() ==> final(self).setup_synced(),
            old(self).setup_synced() ==> (r.is_ok() <==> old(self).accepts_setup(*old(action))),
            old(self).setup_synced() && old(action).player_index != old(self).current_player ==> r == Err::<(), GameError>(
                GameError::ActionOutOfTurn { expected: old(self).current_player, actual: old(action).player_index }),
            r.is_ok() && old(action).action_type == ActionType::BuildSettlement ==> (old(action).payload matches ActionPayload::Node(n)
                && final(self).players@[old(action).player_index as int].settlements@ == old(self).players@[old(action).player_index as int].settlements@.push(n)),
            r.is_ok() && old(action).action_type == ActionType::BuildRoad ==> (old(action).payload matches ActionPayload::Edge(e)
                && final(self).players@[old(action).player_index as int].roads@
                    == old(self).players@[old(action).player_index as int].roads@.push(crate::placement::spec_normalize_edge(e))),
            r.is_ok() && old(action).action_type == ActionType::BuildRoad ==> final(self).bank == old(self).bank
                && forall|q: int| 0 <= q < old(self).players@.len() ==> #[trigger] final(self).players@[q].resources == old(self).players@[q].resources,
            final(self).players@.len() == old(self).players@.len(),
            forall|q: int| 0 <= q < old(self).players@.len() ==> #[trigger] final(self).players@[q].dev_cards == old(self).players@[q].dev_cards,
            final(self).road_building_player == old(self).road_building_player,
            r.is_ok() ==> (old(self).phase matches GamePhase::Setup(st) && if st.cursor + 1 >= 4 * st.num_players {
                &&& final(self).phase == GamePhase::Playing
                &&& final(self).current_player == 0
                &&& final(self).pending_prompt == ActionPrompt::PlayTurn
                &&& final(self).awaiting_roll
            } else {
                final(self).phase == GamePhase::Setup(SetupState { num_players: st.num_players, cursor: (st.cursor + 1) as usize })
            }),
            r.is_ok() && old(action).action_type == ActionType::BuildSettlement ==> (old(action).payload matches ActionPayload::Node(n)
                && (old(self).phase matches GamePhase::Setup(st) && if st.cursor >= 2 * st.num_players {
                    final(self).awarded(old(self), old(action).player_index as int, n)
                } else {
                    final(self).bank == old(self).bank && forall|q: int| 0 <= q < old(self).players@.len()
                        ==> #[trigger] final(self).players@[q].resources == old(self).players@[q].resources
                })),
    {
        let setup = match self.phase {
            GamePhase::Setup(s) => s,
            _ => {
                return Err(GameError::IllegalAction);
            },
        };
        let current = match setup.current_player() {
            Some(p) => p,
            None => {
                return Err(GameError::IllegalAction);
            },
        };
        let prompt = match setup.current_prompt() {
            Some(pr) => pr,
            None => {
                return Err(GameError::IllegalAction);
            },
        };
        let p = action.player_index;
        if current != p {
            return Err(GameError::ActionOutOfTurn { expected: current, actual: p });
        }
        match (prompt, action.action_type) {
            (ActionPrompt::BuildInitialSettlement, ActionType::BuildSettlement) => {
                let node = match action.payload {
                    ActionPayload::Node(n) => n,
                    _ => {
                        return Err(GameError::InvalidPayload);
                    },
                };
                match self.validate_settlement_location(p, node, false) {
                    Ok(()) => {},
                    Err(e) => {
                        return Err(e);
                    },
                }
                let ghost before = *self;
                self.place_settlement(p, node);
                let ghost placed = *self;
                assert forall|q: int| 0 <= q < before.players@.len() implies #[trigger] placed.players@[q].dev_cards == before.players@[q].dev_cards by {
                    if q != p as int {
                        assert(placed.players@[q] == before.players@[q]);
                    }
                }
                if setup.is_second_settlement() {
                    self.award_starting_resources(p, node, events);
                    assert(placed.bank == before.bank);
                    assert(placed.map == before.map);
                    assert(placed.players@[p as int].resources == before.players@[p as int].resources);
                    assert(placed.award_paid(node) == before.award_paid(node));
                    assert(self.awarded(&before, p as int, node));
                } else {
                    assert forall|q: int| 0 <= q < before.players@.len() implies #[trigger] self.players@[q].resources == before.players@[q].resources by {
                        if q != p as int {
                            assert(self.players@[q] == before.players@[q]);
                        }
                    }
                }
                self.setup_pending_roads.set(p, Some(node));
                events.push(GameEvent::BuiltSettlement { player: p, node });
            },
            (ActionPrompt::BuildInitialRoad, ActionType::BuildRoad) => {
                let edge = match action.payload {
                    ActionPayload::Edge(e) => e,
                    _ => {
                        return Err(GameError::InvalidPayload);
                    },
                };
                match self.setup_pending_roads[p] {
                    Some(anchor) => {
                        if !edge_contains_node(edge, anchor) {
                            return Err(GameError::IllegalAction);
                        }
                    },
                    None => {},
                }
                match self.validate_road_location(p, edge, false) {
                    Ok(()) => {},
                    Err(e) => {
                        return Err(e);
                    },
                }
                let ghost before = *self;
                self.place_road(p, edge);
                let ghost placed = *self;
                assert forall|q: int| 0 <= q < before.players@.len() implies #[trigger] placed.players@[q].dev_cards == before.players@[q].dev_cards
                    && placed.players@[q].resources == before.players@[q].resources by {
                    if q != p as int {
                        assert(placed.players@[q] == before.players@[q]);
                    }
                }
                self.update_longest_road();
                assert forall|q: int| 0 <= q < before.players@.len() implies #[trigger] self.players@[q].dev_cards == before.players@[q].dev_cards
                    && self.players@[q].resources == before.players@[q].resources by {
                    assert(self.players@[q].dev_cards == placed.players@[q].dev_cards);
                }
                self.setup_pending_roads.set(p, None);
                events.push(GameEvent::BuiltRoad { player: p, edge });
            },
            _ => {
                return Err(GameError::InvalidPrompt { prompt, action: action.action_type });
            },
        }
        let mut next = setup;
        next.advance();
        if next.is_complete() {
            self.phase = GamePhase::Playing;
            self.current_player = 0;
            self.turn_owner = 0;
            self.pending_prompt = ActionPrompt::PlayTurn;
            self.awaiting_roll = true;
        } else {
            self.current_player = match next.current_player() {
                Some(q) => q,
                None => 0,
            };
            self.pending_prompt = match next.current_prompt() {
                Some(pr) => pr,
                None => ActionPrompt::PlayTurn,
            };
            self.phase = GamePhase::Setup(next);
        }
        Ok(())
    }

    /// Dispatches an action of a regular turn on the expected prompt.
    pub(crate) fn handle_turn_action(&mut self, action: &mut GameAction, events: &mut Vec<GameEvent>) -> (r: Result<(), GameError>)
        requires
            old(self).wf(),
            old(action).player_index == old(self).current_player,
        ensures
            final(self).handled(old(self), r.is_err()),
            r.is_err() ==> *final(action) == *old(action),
            old(self).accepts_turn_action(*old(action)) ==> r.is_ok(),
            r.is_ok() ==> final(action).player_index == old(action).player_index && final(action).action_type == old(action).action_type,
            !(old(action).action_type == ActionType::Roll || old(action).action_type == ActionType::BuyDevelopmentCard)
                ==> *final(action) == *old(action),
            old(action).action_type == ActionType::Roll ==> ({
                &&& (r.is_ok() <==> old(self).awaiting_roll)
                &&& (r.is_err() ==> r == Err::<(), GameError>(GameError::IllegalAction) && *final(action) == *old(action))
                &&& (r.is_ok() ==> !final(self).awaiting_roll && final(self).last_roll.is_some())
                &&& (r.is_ok() ==> (final(action).payload matches ActionPayload::Dice(a, b) && final(self).last_roll == Some((a, b)) && 1 <= a <= 6 && 1 <= b <= 6))
                &&& (r.is_ok() ==> final(action).player_index == old(action).player_index && final(action).action_type == old(action).action_type)
                &&& (r.is_ok() && (old(action).payload matches ActionPayload::Dice(a, b) && 1 <= a <= 6 && 1 <= b <= 6) ==> final(action).payload == old(action).payload)
                &&& (r.is_ok() && dice_sum_of(final(action).payload) != 7 ==> { let n = old(self).map.land_tiles@.len() as int; let sum = dice_sum_of(final(action).payload) as u8; &&& forall|i: int| 0 <= i < 5 ==> #[trigger] final(self).bank.resources.at(i) == old(self).bank_after(sum, n, i) &&& forall|p: int, i: int| 0 <= p < old(self).players@.len() && 0 <= i < 5 ==> #[trigger] final(self).players@[p].resources.at(i) == old(self).hand_after(sum, n, p, i) &&& final(self).pending_prompt == ActionPrompt::PlayTurn })
                &&& (r.is_ok() && dice_sum_of(final(action).payload) == 7 ==> { &&& forall|q: int| 0 <= q < old(self).players@.len() ==> #[trigger] final(self).discard_targets@[q] == if old(self).players@[q].resources.spec_total() > 7 { old(self).players@[q].resources.spec_total() / 2 } else { 0 } &&& (final(self).pending_prompt == ActionPrompt::Discard || final(self).pending_prompt == ActionPrompt::MoveRobber) &&& final(self).players@.len() == old(self).players@.len() &&& forall|q: int| 0 <= q < old(self).players@.len() ==> #[trigger] final(self).players@[q].resources == old(self).players@[q].resources })
            }),
            old(action).action_type == ActionType::BuildRoad ==> ({
                &&& (r.is_ok() <==> ({ let free = old(self).road_building_player == Some(old(action).player_index) && old(self).road_building_free_roads > 0; &&& (free || !old(self).awaiting_roll) &&& (old(action).payload matches ActionPayload::Edge(e) && old(self).road_site_ok(old(action).player_index as int, e, true)) &&& (free || old(self).players@[old(action).player_index as int].resources.covers_counts(road_price())) }))
                &&& (r.is_ok() ==> (old(action).payload matches ActionPayload::Edge(e) && final(self).players@[old(action).player_index as int].roads@ == old(self).players@[old(action).player_index as int].roads@.push(crate::placement::spec_normalize_edge(e))))
                &&& (!(old(action).payload matches ActionPayload::Edge(_)) && (old(self).road_building_player == Some(old(action).player_index) && old(self).road_building_free_roads > 0 || !old(self).awaiting_roll) ==> r == Err::<(), GameError>(GameError::InvalidPayload))
            }),
            old(action).action_type == ActionType::BuildSettlement ==> ({
                &&& (r.is_ok() <==> !old(self).awaiting_roll && (old(action).payload matches ActionPayload::Node(n) && old(self).settlement_site_ok(old(action).player_index as int, n, true)) && old(self).players@[old(action).player_index as int].resources.covers_counts(settlement_price()))
                &&& (r.is_ok() ==> (old(action).payload matches ActionPayload::Node(n) && final(self).players@[old(action).player_index as int].settlements@ == old(self).players@[old(action).player_index as int].settlements@.push(n) && forall|i: int| 0 <= i < 5 ==> #[trigger] final(self).players@[old(action).player_index as int].resources.at(i) == old(self).players@[old(action).player_index as int].resources.at(i) - settlement_price()[i]))
                &&& (old(self).awaiting_roll ==> r == Err::<(), GameError>(GameError::IllegalAction))
            }),
            old(action).action_type == ActionType::BuildCity ==> ({
                &&& (r.is_ok() <==> !old(self).awaiting_roll && (old(action).payload matches ActionPayload::Node(n) && old(self).players@[old(action).player_index as int].settlements@.contains(n)) && old(self).players@[old(action).player_index as int].cities@.len() < MAX_CITIES && old(self).players@[old(action).player_index as int].resources.covers_counts(city_price()))
                &&& (r.is_ok() ==> (old(action).payload matches ActionPayload::Node(n) && final(self).players@[old(action).player_index as int].cities@ == old(self).players@[old(action).player_index as int].cities@.push(n) && forall|i: int| 0 <= i < 5 ==> #[trigger] final(self).players@[old(action).player_index as int].resources.at(i) == old(self).players@[old(action).player_index as int].resources.at(i) - city_price()[i]))
            }),
            old(action).action_type == ActionType::EndTurn ==> ({
                &&& (r.is_ok() <==> !old(self).awaiting_roll)
                &&& (r.is_ok() ==> final(self).current_player == (old(self).current_player + 1) % (old(self).num_players() as int) && final(self).awaiting_roll && final(self).trade_state.is_none())
            }),
            old(action).action_type == ActionType::BuyDevelopmentCard ==> ({
                &&& (r.is_ok() ==> !old(self).awaiting_roll && old(self).bank.development_deck@.len() > 0 && old(self).players@[old(action).player_index as int].resources.covers_counts(crate::bank::development_price()))
                &&& (r.is_ok() ==> final(self).bank.development_deck@.len() + 1 == old(self).bank.development_deck@.len())
                &&& (r.is_ok() ==> (final(action).payload matches ActionPayload::DevelopmentCard(c) && final(self).players@[old(action).player_index as int].fresh_dev_cards@ == old(self).players@[old(action).player_index as int].fresh_dev_cards@.push(c)))
                &&& (r.is_ok() ==> final(action).player_index == old(action).player_index && final(action).action_type == old(action).action_type)
                &&& (old(action).payload == ActionPayload::Empty ==> (r.is_ok() <==> !old(self).awaiting_roll && old(self).bank.development_deck@.len() > 0 && old(self).players@[old(action).player_index as int].resources.covers_counts(crate::bank::development_price())))
            }),
            old(action).action_type == ActionType::MaritimeTrade ==> ({
                &&& (r.is_ok() ==> (old(action).payload matches ActionPayload::MaritimeTrade { give, receive } && { let res = spec_resource_index(receive); &&& (forall|i: int| 0 <= i < 5 && i != res ==> #[trigger] final(self).players@[old(action).player_index as int].resources.at(i) == old(self).players@[old(action).player_index as int].resources.at(i) - give.at(i)) &&& final(self).players@[old(action).player_index as int].resources.at(res) == old(self).players@[old(action).player_index as int].resources.at(res) + 1 &&& (forall|i: int| 0 <= i < 5 && i != res ==> #[trigger] final(self).bank.resources.at(i) == old(self).bank.resources.at(i) + give.at(i)) &&& final(self).bank.resources.at(res) == old(self).bank.resources.at(res) - 1 }))
                &&& (r.is_ok() <==> !old(self).awaiting_roll && (old(action).payload matches ActionPayload::MaritimeTrade { give, receive } && old(self).maritime_ok(old(action).player_index as int, give, receive)))
                &&& (old(self).awaiting_roll ==> r == Err::<(), GameError>(GameError::IllegalAction))
                &&& ((old(action).payload matches ActionPayload::MaritimeTrade { give, receive } && !(single_resource_bundle_spec_ok(give) && single_kind_of(give) != receive && give.count(single_kind_of(give)) == old(self).spec_maritime_rate(old(action).player_index as int, single_kind_of(give)))) ==> r == Err::<(), GameError>(GameError::IllegalAction))
                &&& (r.is_ok() ==> forall|q: int| 0 <= q < old(self).players@.len() && q != old(action).player_index ==> #[trigger] final(self).players@[q] == old(self).players@[q])
            }),
            old(action).action_type == ActionType::OfferTrade ==> ({
                &&& (final(self).players == old(self).players)
                &&& (final(self).bank == old(self).bank)
                &&& (r.is_ok() ==> final(self).trade_state.is_some() && final(self).trade_state.unwrap().offerer == old(action).player_index && final(self).pending_prompt == ActionPrompt::DecideTrade)
            }),
            old(action).action_type == ActionType::PlayKnightCard ==> ({
                &&& (r.is_ok() <==> !old(self).players@[old(action).player_index as int].has_played_dev_card_this_turn && card_count(old(self).players@[old(action).player_index as int].dev_cards@, DevelopmentCard::Knight) > 0)
                &&& (r.is_ok() ==> final(self).pending_prompt == ActionPrompt::MoveRobber && final(self).current_player == old(action).player_index)
            }),
            old(action).action_type == ActionType::PlayYearOfPlenty ==> ({
                &&& (r.is_ok() ==> (old(action).payload matches ActionPayload::Resources(b) && 1 <= b.spec_total() <= 2 && old(self).bank.resources.covers(b) && forall|i: int| 0 <= i < 5 ==> #[trigger] final(self).players@[old(action).player_index as int].resources.at(i) == old(self).players@[old(action).player_index as int].resources.at(i) + b.at(i)))
                &&& ((old(action).payload matches ActionPayload::Resources(b) && (b.spec_total() == 0 || b.spec_total() > 2)) ==> r == Err::<(), GameError>(GameError::InvalidPayload))
                &&& (r.is_ok() <==> (old(action).payload matches ActionPayload::Resources(b) && 1 <= b.spec_total() <= 2 && old(self).bank.resources.covers(b)) && !old(self).players@[old(action).player_index as int].has_played_dev_card_this_turn && card_count(old(self).players@[old(action).player_index as int].dev_cards@, DevelopmentCard::YearOfPlenty) > 0)
                &&& ((old(action).payload matches ActionPayload::Resources(b) && 1 <= b.spec_total() <= 2 && !old(self).bank.resources.covers(b)) && !old(self).players@[old(action).player_index as int].has_played_dev_card_this_turn && card_count(old(self).players@[old(action).player_index as int].dev_cards@, DevelopmentCard::YearOfPlenty) > 0 ==> r == Err::<(), GameError>(GameError::BankOutOfResources))
                &&& (r.is_ok() ==> (old(action).payload matches ActionPayload::Resources(b) && forall|i: int| 0 <= i < 5 ==> #[trigger] final(self).bank.resources.at(i) == old(self).bank.resources.at(i) - b.at(i)))
                &&& (r.is_ok() ==> card_count(final(self).players@[old(action).player_index as int].dev_cards@, DevelopmentCard::YearOfPlenty) + 1 == card_count(old(self).players@[old(action).player_index as int].dev_cards@, DevelopmentCard::YearOfPlenty) && final(self).players@[old(action).player_index as int].has_played_dev_card_this_turn)
                &&& (r.is_ok() ==> forall|q: int| 0 <= q < old(self).players@.len() && q != old(action).player_index ==> #[trigger] final(self).players@[q] == old(self).players@[q])
            }),
            old(action).action_type == ActionType::PlayMonopoly ==> ({
                &&& (r.is_ok() ==> (old(action).payload matches ActionPayload::Resource(res) && forall|q: int| 0 <= q < old(self).players@.len() && q != old(action).player_index ==> #[trigger] final(self).players@[q].resources.count(res) == 0))
                &&& (r.is_ok() <==> (old(action).payload matches ActionPayload::Resource(_)) && !old(self).players@[old(action).player_index as int].has_played_dev_card_this_turn && card_count(old(self).players@[old(action).player_index as int].dev_cards@, DevelopmentCard::Monopoly) > 0)
                &&& (r.is_ok() ==> (old(action).payload matches ActionPayload::Resource(res) && { let ri = spec_resource_index(res); &&& final(self).players@[old(action).player_index as int].resources.at(ri) == old(self).players@[old(action).player_index as int].resources.at(ri) + others_holding(old(self).players@, old(action).player_index as int, ri, old(self).players@.len() as int) &&& forall|q: int, i: int| 0 <= q < old(self).players@.len() && 0 <= i < 5 && i != ri ==> #[trigger] final(self).players@[q].resources.at(i) == old(self).players@[q].resources.at(i) }))
                &&& (r.is_ok() ==> final(self).bank == old(self).bank)
                &&& (r.is_ok() ==> card_count(final(self).players@[old(action).player_index as int].dev_cards@, DevelopmentCard::Monopoly) + 1 == card_count(old(self).players@[old(action).player_index as int].dev_cards@, DevelopmentCard::Monopoly) && final(self).players@[old(action).player_index as int].has_played_dev_card_this_turn)
            }),
            old(action).action_type == ActionType::PlayRoadBuilding ==> ({
                &&& (r.is_ok() ==> final(self).road_building_player == Some(old(action).player_index) && final(self).road_building_free_roads == 2)
                &&& (r.is_ok() <==> !old(self).players@[old(action).player_index as int].has_played_dev_card_this_turn && card_count(old(self).players@[old(action).player_index as int].dev_cards@, DevelopmentCard::RoadBuilding) > 0)
            }),

    {
        let p = action.player_index;
        match action.action_type {
            ActionType::Roll => self.turn_roll(action, events),
            ActionType::BuildRoad => self.turn_build_road(p, action.payload, events),
            ActionType::BuildSettlement => self.turn_build_settlement(p, action.payload, events),
            ActionType::BuildCity => self.turn_build_city(p, action.payload, events),
            ActionType::EndTurn => self.turn_end(events),
            ActionType::BuyDevelopmentCard => self.turn_buy_development_card(action),
            ActionType::MaritimeTrade => self.turn_maritime_trade(p, action.payload),
            ActionType::OfferTrade => self.turn_offer_trade(p, action.payload),
            ActionType::PlayKnightCard => self.turn_play_knight(p),
            ActionType::PlayYearOfPlenty => self.turn_play_year_of_plenty(p, action.payload),
            ActionType::PlayMonopoly => self.turn_play_monopoly(p, action.payload),
            ActionType::PlayRoadBuilding => self.turn_play_road_building(p),
            _ => Err(GameError::IllegalAction),
        }
    }

    /// Handles an action of the playing phase: it must come from the player whose
    /// decision is pending, and fit the pending prompt.
    pub(crate) fn handle_play_action(&mut self, action: &mut GameAction, events: &mut Vec<GameEvent>) -> (r: Result<(), GameError>)
        requires
            old(self).wf(),
        ensures
            final(self).handled(old(self), r.is_err()),
            r.is_err() ==> *final(action) == *old(action),
            old(action).player_index != old(self).current_player ==> r == Err::<(), GameError>(
                GameError::ActionOutOfTurn { expected: old(self).current_player, actual: old(action).player_index }),
            r.is_ok() ==> final(action).player_index == old(action).player_index && final(action).action_type == old(action).action_type,
            r.is_ok() && !(old(action).action_type == ActionType::Roll || old(action).action_type == ActionType::BuyDevelopmentCard
                || old(action).action_type == ActionType::MoveRobber) ==> *final(action) == *old(action),
            r.is_ok() && old(action).action_type == ActionType::Roll ==> (final(action).payload matches ActionPayload::Dice(a, b)
                && 1 <= a <= 6 && 1 <= b <= 6 && final(self).last_roll == Some((a, b))),
            r.is_ok() && old(action).action_type == ActionType::MoveRobber
                && (old(action).payload matches ActionPayload::Robber { victim: Some(_), resource: Some(_), .. })
                ==> *final(action) == *old(action),
            r.is_ok() && old(self).pending_prompt == ActionPrompt::MoveRobber
                && (old(action).payload matches ActionPayload::Robber { victim: Some(v), .. } && v != old(self).current_player
                    && old(self).players@[v as int].resources.spec_total() > 0)
                ==> old(self).robbed(*old(action), *final(action), *final(self)),
            old(self).pending_prompt == ActionPrompt::PlayTurn && old(action).player_index == old(self).current_player
                && old(self).accepts_turn_action(*old(action)) ==> r.is_ok(),
            old(self).pending_prompt == ActionPrompt::Discard && old(action).player_index == old(self).current_player
                ==> GameState::discarded(*old(self), *final(self), *old(action), r.is_ok()),
            old(self).pending_prompt == ActionPrompt::MoveRobber && old(action).player_index == old(self).current_player
                && old(self).accepts_robber_move(*old(action)) ==> r.is_ok(),
            old(self).pending_prompt == ActionPrompt::Discard && old(action).player_index == old(self).current_player
                && old(self).accepts_discard(*old(action)) ==> r.is_ok(),
            old(self).pending_prompt == ActionPrompt::DecideTrade && old(action).player_index == old(self).current_player
                && old(self).accepts_trade_response(*old(action)) ==> r.is_ok(),
            old(self).pending_prompt == ActionPrompt::DecideAcceptees && old(action).player_index == old(self).current_player
                && old(self).accepts_trade_confirmation(*old(action)) ==> r.is_ok(),
    {
        if action.player_index != self.current_player {
            return Err(GameError::ActionOutOfTurn { expected: self.current_player, actual: action.player_index });
        }
        match self.pending_prompt {
            ActionPrompt::PlayTurn => self.handle_turn_action(action, events),
            ActionPrompt::Discard => self.handle_discard_action(action),
            ActionPrompt::MoveRobber => self.handle_move_robber_action(action),
            ActionPrompt::DecideTrade => self.handle_trade_response_action(action),
            ActionPrompt::DecideAcceptees => self.handle_trade_confirmation_action(action),
            _ => Err(GameError::InvalidPrompt { prompt: self.pending_prompt, action: action.action_type }),
        }
    }

    /// Completes the game as soon as some player has reached the target; the first
    /// such player in seating order wins.
    pub(crate) fn check_victory(&mut self, mover: usize)
        requires
            old(self).wf(),
            old(self).phase == GamePhase::Playing,
            mover < old(self).num_players(),
        ensures
            final(self).wf(),
            *final(self) == (GameState { phase: final(self).phase, ..*old(self) }),
            old(self).reached_target(mover as int) ==> final(self).phase == (GamePhase::Completed { winner: Some(mover) }),
            final(self).phase matches GamePhase::Completed { winner } ==> winner.is_some()
                && old(self).reached_target(winner.unwrap() as int) && winner.unwrap() < old(self).num_players()
                && (winner.unwrap() != mover ==> forall|q: int| 0 <= q < winner.unwrap() ==> !#[trigger] old(self).reached_target(q)),
            final(self).phase matches GamePhase::Completed { .. } <==> old(self).someone_reached(),
            !(final(self).phase matches GamePhase::Completed { .. }) ==> final(self).phase == old(self).phase,
    {
        if self.players[mover].total_points() >= self.config.vps_to_win {
            self.phase = GamePhase::Completed { winner: Some(mover) };
            return;
        }
        let n = self.players.len();
        let mut q: usize = 0;
        while q < n
            invariant
                self.wf(),
                *self == *old(self),
                old(self).phase == GamePhase::Playing,
                !old(self).reached_target(mover as int),
                n == self.num_players(),
                0 <= q <= n,
                forall|j: int| 0 <= j < q ==> !#[trigger] self.reached_target(j),
            decreases n - q,
        {
            if self.players[q].total_points() >= self.config.vps_to_win {
                self.phase = GamePhase::Completed { winner: Some(q) };
                return;
            }
            q = q + 1;
        }
        assert(!self.someone_reached());
    }

    /// What one call of `step` does: from `before`, with `action`, giving `r` and `after`.
    pub open spec fn stepped(before: GameState, after: GameState, action: GameAction, r: Result<StepOutcome, GameError>) -> bool {
        &&& (before.phase == GamePhase::Playing && before.pending_prompt == ActionPrompt::Discard
                && action.player_index == before.current_player
                ==> GameState::discarded(before, after, action, r.is_ok()))
        &&& (r.is_ok() && action.action_type == ActionType::BuildSettlement && (before.phase matches GamePhase::Setup(_))
                ==> (before.phase matches GamePhase::Setup(st)
                && (action.payload matches ActionPayload::Node(n) && if st.cursor >= 2 * st.num_players {
                    after.awarded(&before, action.player_index as int, n)
                } else {
                    after.bank == before.bank && forall|q: int| 0 <= q < before.players@.len()
                        ==> #[trigger] after.players@[q].resources == before.players@[q].resources
                })))
        &&& (r.is_ok() && action.action_type == ActionType::BuildRoad && (before.phase matches GamePhase::Setup(_))
                ==> after.bank == before.bank && forall|q: int| 0 <= q < before.players@.len()
                    ==> #[trigger] after.players@[q].resources == before.players@[q].resources)
        &&& (after.valid())
        &&& (before.available_actions@.contains(action) ==> r.is_ok())
        &&& (r.is_err() ==> after == before)
        &&& (after.config == before.config)
        &&& (after.map == before.map)
        &&& (phase_rank(after.phase) >= phase_rank(before.phase))
        &&& (before.phase matches GamePhase::Completed { .. } ==> r == Err::<StepOutcome, GameError>(GameError::GameFinished))
        &&& (!(before.phase matches GamePhase::Completed { .. }) && action.player_index >= before.num_players()
                ==> r == Err::<StepOutcome, GameError>(GameError::InvalidPlayer(action.player_index)))
        &&& (r.is_ok() ==> after.actions@.len() == before.actions@.len() + 1
                && after.actions@.drop_last() == before.actions@
                && after.actions@.last().player_index == action.player_index
                && after.actions@.last().action_type == action.action_type)
        &&& (r.is_ok() && action.action_type == ActionType::Roll ==> (after.actions@.last().payload matches ActionPayload::Dice(a, b)
                && 1 <= a <= 6 && 1 <= b <= 6 && after.last_roll == Some((a, b))))
        &&& (r.is_ok() && !(action.action_type == ActionType::Roll || action.action_type == ActionType::BuyDevelopmentCard
                || action.action_type == ActionType::MoveRobber) ==> after.actions@.last() == action)
        &&& (r.is_ok() && action.action_type == ActionType::MoveRobber
                && (action.payload matches ActionPayload::Robber { victim: Some(_), resource: Some(_), .. })
                ==> after.actions@.last() == action)
        &&& (r.is_ok() && before.phase == GamePhase::Playing && before.pending_prompt == ActionPrompt::MoveRobber
                && (action.payload matches ActionPayload::Robber { victim: Some(v), .. } && v != before.current_player
                    && before.players@[v as int].resources.spec_total() > 0)
                ==> before.robbed(action, after.actions@.last(), after))
        &&& (before.phase matches GamePhase::Setup(_) ==> after.phase matches GamePhase::Setup(_) || after.phase == GamePhase::Playing)
        &&& (r.is_ok() && (before.phase matches GamePhase::Setup(_)) && after.phase == GamePhase::Playing ==> {
                &&& after.current_player == 0
                &&& after.pending_prompt == ActionPrompt::PlayTurn
                &&& after.awaiting_roll
                &&& after.available_actions@ == seq![GameAction::new_spec(0, ActionType::Roll)]
            })
        &&& (!(before.phase matches GamePhase::Completed { .. }) && action.player_index < before.num_players()
                && action.player_index != before.current_player
                ==> r == Err::<StepOutcome, GameError>(GameError::ActionOutOfTurn { expected: before.current_player, actual: action.player_index }))
        &&& (r.is_ok() && before.phase == GamePhase::Playing && after.reached_target(action.player_index as int)
                ==> after.phase == (GamePhase::Completed { winner: Some(action.player_index) }))
        &&& (r.is_ok() && before.phase == GamePhase::Playing ==> (after.phase matches GamePhase::Completed { .. } <==> after.someone_reached()))
        &&& (r.is_ok() ==> r.unwrap().rewards@.len() == after.num_players())
        &&& (r.is_ok() ==> (r.unwrap().done <==> after.phase matches GamePhase::Completed { .. }))
        &&& (r.is_ok() ==> match after.phase {
                GamePhase::Completed { winner: Some(w) } => after.reached_target(w as int) && forall|q: int| 0 <= q < after.num_players()
                    ==> #[trigger] r.unwrap().rewards@[q] == if q == w { 1i8 } else { -1i8 },
                _ => forall|q: int| 0 <= q < after.num_players() ==> #[trigger] r.unwrap().rewards@[q] == 0i8,
            })
    }

    /// Applies one action. On failure nothing changes. On success the action, with any
    /// dice or stolen card it resolved, joins the log, the legal actions are recomputed,
    /// and during play the game ends as soon as some player reaches the target.
    pub fn step(&mut self, action: GameAction) -> (r: Result<StepOutcome, GameError>)
        requires
            old(self).valid(),
        ensures
            old(self).phase == GamePhase::Playing && old(self).pending_prompt == ActionPrompt::Discard
                && action.player_index == old(self).current_player
                ==> GameState::discarded(*old(self), *final(self), action, r.is_ok()),
            r.is_ok() && action.action_type == ActionType::BuildSettlement && (old(self).phase matches GamePhase::Setup(_))
                ==> (old(self).phase matches GamePhase::Setup(st)
                && (action.payload matches ActionPayload::Node(n) && if st.cursor >= 2 * st.num_players {
                    final(self).awarded(old(self), action.player_index as int, n)
                } else {
                    final(self).bank == old(self).bank && forall|q: int| 0 <= q < old(self).players@.len()
                        ==> #[trigger] final(self).players@[q].resources == old(self).players@[q].resources
                })),
            r.is_ok() && action.action_type == ActionType::BuildRoad && (old(self).phase matches GamePhase::Setup(_))
                ==> final(self).bank == old(self).bank && forall|q: int| 0 <= q < old(self).players@.len()
                    ==> #[trigger] final(self).players@[q].resources == old(self).players@[q].resources,
            final(self).valid(),
            old(self).available_actions@.contains(action) ==> r.is_ok(),
            r.is_err() ==> *final(self) == *old(self),
            final(self).config == old(self).config,
            final(self).map == old(self).map,
            phase_rank(final(self).phase) >= phase_rank(old(self).phase),
            old(self).phase matches GamePhase::Completed { .. } ==> r == Err::<StepOutcome, GameError>(GameError::GameFinished),
            !(old(self).phase matches GamePhase::Completed { .. }) && action.player_index >= old(self).num_players()
                ==> r == Err::<StepOutcome, GameError>(GameError::InvalidPlayer(action.player_index)),
            r.is_ok() ==> final(self).actions@.len() == old(self).actions@.len() + 1
                && final(self).actions@.drop_last() == old(self).actions@
                && final(self).actions@.last().player_index == action.player_index
                && final(self).actions@.last().action_type == action.action_type,
            r.is_ok() && action.action_type == ActionType::Roll ==> (final(self).actions@.last().payload matches ActionPayload::Dice(a, b)
                && 1 <= a <= 6 && 1 <= b <= 6 && final(self).last_roll == Some((a, b))),
            r.is_ok() && !(action.action_type == ActionType::Roll || action.action_type == ActionType::BuyDevelopmentCard
                || action.action_type == ActionType::MoveRobber) ==> final(self).actions@.last() == action,
            r.is_ok() && action.action_type == ActionType::MoveRobber
                && (action.payload matches ActionPayload::Robber { victim: Some(_), resource: Some(_), .. })
                ==> final(self).actions@.last() == action,
            r.is_ok() && old(self).phase == GamePhase::Playing && old(self).pending_prompt == ActionPrompt::MoveRobber
                && (action.payload matches ActionPayload::Robber { victim: Some(v), .. } && v != old(self).current_player
                    && old(self).players@[v as int].resources.spec_total() > 0)
                ==> old(self).robbed(action, final(self).actions@.last(), *final(self)),
            old(self).phase matches GamePhase::Setup(_) ==> final(self).phase matches GamePhase::Setup(_) || final(self).phase == GamePhase::Playing,
            r.is_ok() && (old(self).phase matches GamePhase::Setup(_)) && final(self).phase == GamePhase::Playing ==> {
                &&& final(self).current_player == 0
                &&& final(self).pending_prompt == ActionPrompt::PlayTurn
                &&& final(self).awaiting_roll
                &&& final(self).available_actions@ == seq![GameAction::new_spec(0, ActionType::Roll)]
            },
            !(old(self).phase matches GamePhase::Completed { .. }) && action.player_index < old(self).num_players()
                && action.player_index != old(self).current_player
                ==> r == Err::<StepOutcome, GameError>(GameError::ActionOutOfTurn { expected: old(self).current_player, actual: action.player_index }),
            r.is_ok() && old(self).phase == GamePhase::Playing && final(self).reached_target(action.player_index as int)
                ==> final(self).phase == (GamePhase::Completed { winner: Some(action.player_index) }),
            r.is_ok() && old(self).phase == GamePhase::Playing ==> (final(self).phase matches GamePhase::Completed { .. } <==> final(self).someone_reached()),
            r.is_ok() ==> r.unwrap().rewards@.len() == final(self).num_players(),
            r.is_ok() ==> (r.unwrap().done <==> final(self).phase matches GamePhase::Completed { .. }),
            r.is_ok() ==> match final(self).phase {
                GamePhase::Completed { winner: Some(w) } => final(self).reached_target(w as int) && forall|q: int| 0 <= q < final(self).num_players()
                    ==> #[trigger] r.unwrap().rewards@[q] == if q == w { 1i8 } else { -1i8 },
                _ => forall|q: int| 0 <= q < final(self).num_players() ==> #[trigger] r.unwrap().rewards@[q] == 0i8,
            },
    {
        proof {
            if self.available_actions@.contains(action) {
                let k = self.available_actions@.index_of(action);
                assert(self.available_actions@[k] == action);
            }
        }
        match self.phase {
            GamePhase::Completed { .. } => {
                return Err(GameError::GameFinished);
            },
            _ => {},
        }
        if action.player_index >= self.players.len() {
            return Err(GameError::InvalidPlayer(action.player_index));
        }
        let ghost mut pre = *self;
        let mut action = action;
        let mut events: Vec<GameEvent> = Vec::new();
        let in_setup = match self.phase {
            GamePhase::Setup(_) => true,
            _ => false,
        };
        if in_setup {
            match self.handle_setup_action(&mut action, &mut events) {
                Ok(()) => {},
                Err(e) => {
                    return Err(e);
                },
            }
            proof {
                pre = *self;
            }
        } else {
            match self.handle_play_action(&mut action, &mut events) {
                Ok(()) => {},
                Err(e) => {
                    return Err(e);
                },
            }
            proof {
                pre = *self;
            }
            self.check_victory(action.player_index);
        }
        let ghost mid = *self;
        self.actions.push(action);
        self.refresh_available_actions();
        proof {
            if in_setup && action.action_type == ActionType::BuildSettlement {
                if let ActionPayload::Node(n) = action.payload {
                    assert(self.players == pre.players && self.bank == pre.bank);
                    assert(pre.awarded(old(self), action.player_index as int, n) ==> self.awarded(old(self), action.player_index as int, n));
                }
            }
        }
        assert(self.players == mid.players && self.config == mid.config);
        proof {
            lemma_reached_same(*self, mid);
            if !in_setup {
                lemma_reached_same(mid, pre);
            }
        }
        let n = self.players.len();
        let mut rewards: Vec<i8> = Vec::new();
        let mut done = false;
        let winner: Option<usize> = match self.phase {
            GamePhase::Completed { winner } => {
                done = true;
                winner
            },
            _ => None,
        };
        let mut q: usize = 0;
        while q < n
            invariant
                0 <= q <= n,
                rewards@.len() == q,
                forall|j: int| 0 <= j < q ==> #[trigger] rewards@[j] == match winner {
                    Some(w) => if j == w { 1i8 } else { -1i8 },
                    None => 0i8,
                },
            decreases n - q,
        {
            let v: i8 = match winner {
                Some(w) => if q == w { 1 } else { -1 },
                None => 0,
            };
            rewards.push(v);
            q = q + 1;
        }
        match winner {
            Some(w) => events.push(GameEvent::GameWon { winner: w }),
            None => {},
        }
        Ok(StepOutcome { events, rewards, done })
    }

    /// Recomputes the cached legal actions.
    pub(crate) fn refresh_available_actions(&mut self)
        requires
            old(self).wf(),
        ensures
            final(self).wf(),
            old(self).setup_synced() ==> final(self).legal_cached(),
            old(self).phase == GamePhase::Playing && old(self).pending_prompt == ActionPrompt::PlayTurn && old(self).awaiting_roll
                && old(self).road_building_player != Some(old(self).current_player)
                && old(self).players@[old(self).current_player as int].dev_cards@.len() == 0
                ==> final(self).available_actions@ == seq![GameAction::new_spec(old(self).current_player, ActionType::Roll)],
            *final(self) == (GameState { available_actions: final(self).available_actions, ..*old(self) }),
    {
        let acts = self.compute_available_actions();
        self.available_actions = acts;
    }

    /// The kind of decision pending.
    pub fn legal_action_prompt(&self) -> (p: ActionPrompt)
        ensures
            p == self.pending_prompt,
    {
        self.pending_prompt
    }

    /// The actions that are legal now.
    pub fn legal_actions(&self) -> (a: &Vec<GameAction>)
        ensures
            *a == self.available_actions,
    {
        &self.available_actions
    }

    /// Every accepted action so far, with its randomness resolved.
    pub fn action_log(&self) -> (a: &Vec<GameAction>)
        ensures
            *a == self.actions,
    {
        &self.actions
    }
}

} // verus!
