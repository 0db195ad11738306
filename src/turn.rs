use vstd::prelude::*;

use rand::rngs::StdRng;

use crate::action::{ActionPayload, GameAction};
use crate::chance::random_below;
use crate::placement::contains_node;
use crate::players::{PlayerState, MAX_CITIES};
use crate::resources::{
    city_price,
    cost_city,
    cost_road,
    cost_settlement,
    road_price,
    settlement_price,
};
use crate::state::{
    lemma_player_sum_resources_eq,
    player_sum,
    GameError,
    GameEvent,
    GameState,
    SUPPLY_PER_RESOURCE,
};
use crate::types::{ActionPrompt, DevelopmentCard};

verus! {

impl GameState {
    /// An action handler's promise: the state stays well formed, a failure changes
    /// nothing, and configuration, board and phase are left alone.
    pub open spec fn handled(&self, o: &GameState, failed: bool) -> bool {
        &&& self.wf()
        &&& (failed ==> *self == *o)
        &&& self.config == o.config
        &&& self.map == o.map
        &&& self.phase == o.phase
        &&& self.actions == o.actions
    }

    fn give_dev_card(&mut self, p: usize, card: DevelopmentCard)
        requires
            old(self).wf(),
            p < old(self).num_players(),
        ensures
            final(self).wf(),
            final(self).players@.len() == old(self).players@.len(),
            final(self).players@[p as int].fresh_dev_cards@ == old(self).players@[p as int].fresh_dev_cards@.push(card),
            *final(self) == (GameState { players: final(self).players, ..*old(self) }),
    {
        let ghost o = *old(self);
        self.players[p].add_dev_card(card);
        proof {
            assert forall|q: int| 0 <= q < self.num_players() implies (#[trigger] self.players@[q]).wf() by {
                assert(o.players@[q].wf());
            }
            assert forall|i: int| 0 <= i < 5 implies #[trigger] self.bank.resources.at(i) + player_sum(self.players@, i) == SUPPLY_PER_RESOURCE as int by {
                lemma_player_sum_resources_eq(o.players@, self.players@, i);
            }
        }
    }

    fn mark_rolled(&mut self, p: usize)
        requires
            old(self).wf(),
            p < old(self).num_players(),
        ensures
            final(self).wf(),
            final(self).players@.len() == old(self).players@.len(),
            forall|q: int| 0 <= q < old(self).players@.len() && q != p ==> #[trigger] final(self).players@[q] == old(self).players@[q],
            final(self).players@[p as int] == (PlayerState { has_rolled: true, ..old(self).players@[p as int] }),
            *final(self) == (GameState { players: final(self).players, ..*old(self) }),
    {
        let ghost o = *old(self);
        self.players[p].has_rolled = true;
        proof {
            assert forall|q: int| 0 <= q < self.num_players() implies (#[trigger] self.players@[q]).wf() by {
                assert(o.players@[q].wf());
            }
            assert forall|i: int| 0 <= i < 5 implies #[trigger] self.bank.resources.at(i) + player_sum(self.players@, i) == SUPPLY_PER_RESOURCE as int by {
                lemma_player_sum_resources_eq(o.players@, self.players@, i);
            }
        }
    }

    /// Rolls (or takes the given dice, each clamped to 1..=6), records the roll in the
    /// action, then pays out, or on a seven starts the discard phase.
    pub(crate) fn turn_roll(&mut self, action: &mut GameAction, events: &mut Vec<GameEvent>) -> (r: Result<(), GameError>)
        requires
            old(self).wf(),
            old(action).player_index == old(self).current_player,
        ensures
            final(self).handled(old(self), r.is_err()),
            r.is_ok() <==> old(self).awaiting_roll,
            r.is_err() ==> r == Err::<(), GameError>(GameError::IllegalAction) && *final(action) == *old(action),
            r.is_ok() ==> !final(self).awaiting_roll && final(self).last_roll.is_some(),
            r.is_ok() ==> (final(action).payload matches ActionPayload::Dice(a, b) && final(self).last_roll == Some((a, b))
                && 1 <= a <= 6 && 1 <= b <= 6),
            r.is_ok() ==> final(action).player_index == old(action).player_index && final(action).action_type == old(action).action_type,
            r.is_ok() && (old(action).payload matches ActionPayload::Dice(a, b) && 1 <= a <= 6 && 1 <= b <= 6) ==> final(action).payload == old(action).payload,
            r.is_ok() && dice_sum_of(final(action).payload) != 7 ==> {
                let n = old(self).map.land_tiles@.len() as int;
                let sum = dice_sum_of(final(action).payload) as u8;
                &&& forall|i: int| 0 <= i < 5 ==> #[trigger] final(self).bank.resources.at(i) == old(self).bank_after(sum, n, i)
                &&& forall|p: int, i: int| 0 <= p < old(self).players@.len() && 0 <= i < 5 ==> #[trigger] final(self).players@[p].resources.at(i)
                    == old(self).hand_after(sum, n, p, i)
                &&& final(self).pending_prompt == ActionPrompt::PlayTurn
            },
            r.is_ok() && dice_sum_of(final(action).payload) == 7 ==> {
                &&& forall|q: int| 0 <= q < old(self).players@.len() ==> #[trigger] final(self).discard_targets@[q]
                    == if old(self).players@[q].resources.spec_total() > 7 { old(self).players@[q].resources.spec_total() / 2 } else { 0 }
                &&& (final(self).pending_prompt == ActionPrompt::Discard || final(self).pending_prompt == ActionPrompt::MoveRobber)
                &&& final(self).players@.len() == old(self).players@.len()
                &&& forall|q: int| 0 <= q < old(self).players@.len() ==> #[trigger] final(self).players@[q].resources == old(self).players@[q].resources
            },
    {
        if !self.awaiting_roll {
            return Err(GameError::IllegalAction);
        }
        let (d1, d2) = match action.payload {
            ActionPayload::Dice(a, b) => (clamp_die(a), clamp_die(b)),
            _ => {
                let a = roll_die(&mut self.rng);
                let b = roll_die(&mut self.rng);
                (a, b)
            },
        };
        let sum = d1 + d2;
        self.last_roll = Some((d1, d2));
        self.awaiting_roll = false;
        let p = action.player_index;
        self.mark_rolled(p);
        action.payload = ActionPayload::Dice(d1, d2);
        events.push(GameEvent::DiceRolled { player: p, dice: (d1, d2), sum });
        if sum != 7 {
            let ghost mid = *self;
            proof {
                mid.lemma_payout_frame(old(self), sum, mid.map.land_tiles@.len() as int);
            }
            self.distribute_resources(sum, events);
            self.pending_prompt = ActionPrompt::PlayTurn;
        } else {
            self.begin_discard_phase();
        }
        Ok(())
    }
}

impl GameState {
    /// Builds a road: free while a road-building card has roads left for this player,
    /// otherwise after the roll and for the road price. It must touch the network.
    pub(crate) fn turn_build_road(&mut self, p: usize, payload: ActionPayload, events: &mut Vec<GameEvent>) -> (r: Result<(), GameError>)
        requires
            old(self).wf(),
            p < old(self).num_players(),
        ensures
            final(self).handled(old(self), r.is_err()),
            r.is_ok() <==> ({
                let free = old(self).road_building_player == Some(p) && old(self).road_building_free_roads > 0;
                &&& (free || !old(self).awaiting_roll)
                &&& (payload matches ActionPayload::Edge(e) && old(self).road_site_ok(p as int, e, true))
                &&& (free || old(self).players@[p as int].resources.covers_counts(road_price()))
            }),
            r.is_ok() ==> (payload matches ActionPayload::Edge(e)
                && final(self).players@[p as int].roads@ == old(self).players@[p as int].roads@.push(crate::placement::spec_normalize_edge(e))),
            !(payload matches ActionPayload::Edge(_)) && (old(self).road_building_player == Some(p) && old(self).road_building_free_roads > 0 || !old(self).awaiting_roll)
                ==> r == Err::<(), GameError>(GameError::InvalidPayload),
    {
        let free = match self.road_building_player {
            Some(q) => q == p && self.road_building_free_roads > 0,
            None => false,
        };
        if !free && self.awaiting_roll {
            return Err(GameError::IllegalAction);
        }
        let edge = match payload {
            ActionPayload::Edge(e) => e,
            _ => {
                return Err(GameError::InvalidPayload);
            },
        };
        match self.validate_road_location(p, edge, true) {
            Ok(()) => {},
            Err(e) => {
                return Err(e);
            },
        }
        if !free {
            let cost = cost_road();
            assert(cost.counts@ =~= road_price());
            match self.player_to_bank(p, &cost) {
                Ok(()) => {},
                Err(e) => {
                    return Err(e);
                },
            }
        } else {
            self.road_building_free_roads = self.road_building_free_roads - 1;
            if self.road_building_free_roads == 0 {
                self.road_building_player = None;
            }
        }
        self.place_road(p, edge);
        self.update_longest_road();
        events.push(GameEvent::BuiltRoad { player: p, edge });
        Ok(())
    }

    /// Builds a settlement after the roll, for the settlement price, on a free node
    /// with free neighbours that touches the player's network.
    pub(crate) fn turn_build_settlement(&mut self, p: usize, payload: ActionPayload, events: &mut Vec<GameEvent>) -> (r: Result<(), GameError>)
        requires
            old(self).wf(),
            p < old(self).num_players(),
        ensures
            final(self).handled(old(self), r.is_err()),
            r.is_ok() <==> !old(self).awaiting_roll && (payload matches ActionPayload::Node(n) && old(self).settlement_site_ok(p as int, n, true))
                && old(self).players@[p as int].resources.covers_counts(settlement_price()),
            r.is_ok() ==> (payload matches ActionPayload::Node(n)
                && final(self).players@[p as int].settlements@ == old(self).players@[p as int].settlements@.push(n)
                && forall|i: int| 0 <= i < 5 ==> #[trigger] final(self).players@[p as int].resources.at(i) == old(self).players@[p as int].resources.at(i) - settlement_price()[i]),
            old(self).awaiting_roll ==> r == Err::<(), GameError>(GameError::IllegalAction),
    {
        if self.awaiting_roll {
            return Err(GameError::IllegalAction);
        }
        let node = match payload {
            ActionPayload::Node(n) => n,
            _ => {
                return Err(GameError::InvalidPayload);
            },
        };
        match self.validate_settlement_location(p, node, true) {
            Ok(()) => {},
            Err(e) => {
                return Err(e);
            },
        }
        let cost = cost_settlement();
        assert(cost.counts@ =~= settlement_price());
        match self.player_to_bank(p, &cost) {
            Ok(()) => {},
            Err(e) => {
                return Err(e);
            },
        }
        self.place_settlement(p, node);
        events.push(GameEvent::BuiltSettlement { player: p, node });
        Ok(())
    }

    /// Turns one of the player's settlements into a city, after the roll and for the city price.
    pub(crate) fn turn_build_city(&mut self, p: usize, payload: ActionPayload, events: &mut Vec<GameEvent>) -> (r: Result<(), GameError>)
        requires
            old(self).wf(),
            p < old(self).num_players(),
        ensures
            final(self).handled(old(self), r.is_err()),
            r.is_ok() <==> !old(self).awaiting_roll && (payload matches ActionPayload::Node(n) && old(self).players@[p as int].settlements@.contains(n))
                && old(self).players@[p as int].cities@.len() < MAX_CITIES
                && old(self).players@[p as int].resources.covers_counts(city_price()),
            r.is_ok() ==> (payload matches ActionPayload::Node(n)
                && final(self).players@[p as int].cities@ == old(self).players@[p as int].cities@.push(n)
                && forall|i: int| 0 <= i < 5 ==> #[trigger] final(self).players@[p as int].resources.at(i) == old(self).players@[p as int].resources.at(i) - city_price()[i]),
    {
        if self.awaiting_roll {
            return Err(GameError::IllegalAction);
        }
        let node = match payload {
            ActionPayload::Node(n) => n,
            _ => {
                return Err(GameError::InvalidPayload);
            },
        };
        if self.players[p].city_limit_reached() {
            return Err(GameError::IllegalAction);
        }
        if !contains_node(&self.players[p].settlements, node) {
            return Err(GameError::IllegalAction);
        }
        let cost = cost_city();
        assert(cost.counts@ =~= city_price());
        match self.player_to_bank(p, &cost) {
            Ok(()) => {},
            Err(e) => {
                return Err(e);
            },
        }
        self.upgrade_to_city(p, node);
        events.push(GameEvent::BuiltCity { player: p, node });
        Ok(())
    }

    /// Ends the turn after the roll; any trade in negotiation and unused free roads lapse.
    pub(crate) fn turn_end(&mut self, events: &mut Vec<GameEvent>) -> (r: Result<(), GameError>)
        requires
            old(self).wf(),
        ensures
            final(self).handled(old(self), r.is_err()),
            r.is_ok() <==> !old(self).awaiting_roll,
            r.is_ok() ==> final(self).current_player == (old(self).current_player + 1) % (old(self).num_players() as int)
                && final(self).awaiting_roll && final(self).trade_state.is_none(),
    {
        if self.awaiting_roll {
            return Err(GameError::IllegalAction);
        }
        self.trade_state = None;
        self.trade_queue.clear();
        self.advance_turn(events);
        Ok(())
    }

    /// Buys a development card after the roll: the price goes to the bank and a card
    /// joins the player's fresh cards. A recorded purchase names its card, which is
    /// then taken from the deck; otherwise the top card of the reshuffled deck is
    /// drawn, and recorded in the action.
    pub(crate) fn turn_buy_development_card(&mut self, action: &mut GameAction) -> (r: Result<(), GameError>)
        requires
            old(self).wf(),
            old(action).player_index < old(self).num_players(),
        ensures
            final(self).handled(old(self), r.is_err()),
            r.is_err() ==> *final(action) == *old(action),
            r.is_ok() ==> !old(self).awaiting_roll && old(self).bank.development_deck@.len() > 0
                && old(self).players@[old(action).player_index as int].resources.covers_counts(crate::bank::development_price()),
            r.is_ok() ==> final(self).bank.development_deck@.len() + 1 == old(self).bank.development_deck@.len(),
            r.is_ok() ==> (final(action).payload matches ActionPayload::DevelopmentCard(c)
                && final(self).players@[old(action).player_index as int].fresh_dev_cards@
                    == old(self).players@[old(action).player_index as int].fresh_dev_cards@.push(c)),
            r.is_ok() ==> final(action).player_index == old(action).player_index && final(action).action_type == old(action).action_type,
            old(action).payload == ActionPayload::Empty ==> (r.is_ok() <==> !old(self).awaiting_roll && old(self).bank.development_deck@.len() > 0
                && old(self).players@[old(action).player_index as int].resources.covers_counts(crate::bank::development_price())),
    {
        let p = action.player_index;
        if self.awaiting_roll {
            return Err(GameError::IllegalAction);
        }
        if self.bank.development_deck_len() == 0 {
            return Err(GameError::IllegalAction);
        }
        let cost = crate::resources::cost_development();
        assert(cost.counts@ =~= crate::bank::development_price());
        if !self.players[p].resources.can_afford(&cost) {
            return Err(GameError::InsufficientResources);
        }
        let card = match action.payload {
            ActionPayload::DevelopmentCard(c) => {
                if !self.bank.has_development_card(c) {
                    return Err(GameError::IllegalAction);
                }
                let _ = self.player_to_bank(p, &cost);
                let _ = self.bank.take_development_card(c);
                proof {
                    assert(self.conserved());
                }
                c
            },
            _ => {
                let ghost o = *old(self);
                let ghost ps = self.players@;
                proof {
                    assert forall|i: int| 0 <= i < 5 implies #[trigger] self.bank.resources.at(i) + cost.at(i) <= 19 by {
                        crate::state::lemma_player_sum_bound(ps, p as int, i);
                        assert(self.bank.resources.at(i) + player_sum(ps, i) == SUPPLY_PER_RESOURCE as int);
                    }
                }
                let bought = self.bank.buy_development_card(&mut self.rng, &mut self.players[p].resources);
                proof {
                    assert(self.players@ == ps.update(p as int, self.players@[p as int]));
                    assert forall|i: int| 0 <= i < 5 implies #[trigger] self.bank.resources.at(i) + player_sum(self.players@, i) == SUPPLY_PER_RESOURCE as int by {
                        crate::state::lemma_player_sum_update(ps, p as int, self.players@[p as int], i);
                        assert(bought.is_ok());
                        assert(self.players@[p as int].resources.at(i) == ps[p as int].resources.at(i) - crate::bank::development_price()[i]);
                        assert(self.bank.resources.counts@[i] == crate::resources::sat_add(o.bank.resources.counts@[i], cost.counts@[i]));
                        assert(self.bank.resources.at(i) == o.bank.resources.at(i) + cost.at(i));
                    }
                    assert forall|q: int| 0 <= q < self.num_players() implies (#[trigger] self.players@[q]).wf() by {
                        assert(o.players@[q].wf());
                    }
                    assert(self.conserved());
                    assert(self.occupancy_consistent());
                }
                match bought {
                    Ok(Some(c)) => c,
                    _ => {
                        return Err(GameError::IllegalAction);
                    },
                }
            },
        };
        self.give_dev_card(p, card);
        action.payload = ActionPayload::DevelopmentCard(card);
        Ok(())
    }
}

/// One fair die: a uniform draw among its six faces.
fn roll_die(rng: &mut StdRng) -> (r: u8)
    ensures
        1 <= r <= 6,
{
    let face = random_below(rng, 6);
    (face + 1) as u8
}

/// The sum of the dice a payload records (0 for any other payload).
pub open spec fn dice_sum_of(p: ActionPayload) -> int {
    match p {
        ActionPayload::Dice(a, b) => a + b,
        _ => 0,
    }
}

/// A die value forced into 1..=6.
pub fn clamp_die(v: u8) -> (r: u8)
    ensures
        1 <= r <= 6,
        1 <= v <= 6 ==> r == v,
{
    if v < 1 {
        1
    } else if v > 6 {
        6
    } else {
        v
    }
}

} // verus!
