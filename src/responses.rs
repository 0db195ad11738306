use vstd::prelude::*;

use crate::action::{ActionPayload, GameAction};
use crate::chance::random_below;
use crate::engine::single_bundle;
use crate::state::{GameError, GameState};
use crate::types::{resource_at, spec_resource_index, ActionPrompt, ActionType, Resource};

verus! {

fn contains_player(v: &Vec<usize>, x: usize) -> (b: bool)
    ensures
        b == v@.contains(x),
{
    let mut i: usize = 0;
    while i < v.len()
        invariant
            0 <= i <= v@.len(),
            forall|j: int| 0 <= j < i ==> v@[j] != x,
        decreases v@.len() - i,
    {
        if v[i] == x {
            return true;
        }
        i = i + 1;
    }
    false
}

impl GameState {
    /// A land tile with this id exists.
    pub open spec fn has_tile(&self, id: u16) -> bool {
        exists|t: int| 0 <= t < self.map.land_tiles@.len() && (#[trigger] self.map.land_tiles@[t]).id == id
    }

    /// `a` moves the robber to an existing land tile, naming no victim or another
    /// seated player, and no card to replay.
    pub open spec fn accepts_robber_move(&self, a: GameAction) -> bool {
        &&& a.action_type == ActionType::MoveRobber
        &&& a.payload matches ActionPayload::Robber { tile_id, victim, resource }
        &&& self.has_tile(tile_id)
        &&& resource.is_none()
        &&& (victim matches Some(v) ==> v < self.num_players() && v != self.current_player)
    }

    /// `a` discards one held card while the current player still owes cards.
    pub open spec fn accepts_discard(&self, a: GameAction) -> bool {
        &&& a.action_type == ActionType::Discard
        &&& self.discard_targets@[self.current_player as int] > 0
        &&& a.payload matches ActionPayload::Resource(r)
        &&& self.players@[self.current_player as int].resources.count(r) > 0
    }

    /// `a` answers the open trade offer: a rejection, or an acceptance by a player who
    /// holds what is asked for.
    pub open spec fn accepts_trade_response(&self, a: GameAction) -> bool {
        &&& self.trade_state matches Some(ts)
        &&& self.current_player != ts.offerer
        &&& (a.action_type == ActionType::RejectTrade
            || (a.action_type == ActionType::AcceptTrade && self.players@[self.current_player as int].resources.covers(ts.receive)))
    }

    /// `a` cancels the open offer, or confirms it with another seated player who
    /// accepted, both sides still able to pay.
    pub open spec fn accepts_trade_confirmation(&self, a: GameAction) -> bool {
        &&& self.trade_state matches Some(ts)
        &&& self.current_player == ts.offerer
        &&& (a.action_type == ActionType::CancelTrade
            || (a.action_type == ActionType::ConfirmTrade && (a.payload matches ActionPayload::Trade { partner: Some(x), .. }
                && ts.acceptees@.contains(x) && x < self.num_players() && x != ts.offerer
                && self.players@[ts.offerer as int].resources.covers(ts.give)
                && self.players@[x as int].resources.covers(ts.receive))))
    }

    /// A steal by the current player: the logged action names the victim and a kind
    /// `k`; the victim has one fewer card of `k`, the thief one more, and nothing else
    /// changed in any hand.
    pub open spec fn robbed(&self, a: GameAction, logged: GameAction, after: GameState) -> bool {
        let thief = self.current_player as int;
        &&& a.payload matches ActionPayload::Robber { tile_id, victim: Some(v), .. }
        &&& logged.payload matches ActionPayload::Robber { tile_id: t2, victim: Some(v2), resource: Some(k) }
        &&& t2 == tile_id && v2 == v
        &&& after.players@[v as int].resources.count(k) + 1 == self.players@[v as int].resources.count(k)
        &&& after.players@[thief].resources.count(k) == self.players@[thief].resources.count(k) + 1
        &&& forall|i: int| 0 <= i < 5 && i != spec_resource_index(k) ==> #[trigger] after.players@[v as int].resources.at(i)
            == self.players@[v as int].resources.at(i) && after.players@[thief].resources.at(i) == self.players@[thief].resources.at(i)
        &&& after.players@.len() == self.players@.len()
        &&& forall|q: int| 0 <= q < self.players@.len() && q != thief && q != v ==> #[trigger] after.players@[q] == self.players@[q]
    }

    /// What one discard by the current player does: from `before`, with action `a`,
    /// succeeding (`ok`) or not, giving `after`.
    pub open spec fn discarded(before: GameState, after: GameState, a: GameAction, ok: bool) -> bool {
        &&& (ok ==> before.discard_targets@[before.current_player as int] > 0)
        &&& (ok ==> (a.payload matches ActionPayload::Resource(res)
                && after.players@[before.current_player as int].resources.count(res)
                    == before.players@[before.current_player as int].resources.count(res) - 1))
        &&& (ok ==> after.discard_targets@[before.current_player as int] == before.discard_targets@[before.current_player as int] - 1)
        &&& (ok <==> before.accepts_discard(a))
        &&& (ok ==> (a.payload matches ActionPayload::Resource(res) && {
                let ri = spec_resource_index(res);
                let c = before.current_player as int;
                &&& after.bank.resources.at(ri) == before.bank.resources.at(ri) + 1
                &&& forall|i: int| 0 <= i < 5 && i != ri ==> #[trigger] after.bank.resources.at(i) == before.bank.resources.at(i)
                    && after.players@[c].resources.at(i) == before.players@[c].resources.at(i)
                &&& forall|q: int| 0 <= q < before.players@.len() && q != c ==> #[trigger] after.players@[q] == before.players@[q]
            }))
        &&& (ok && before.discard_targets@[before.current_player as int] > 1 ==> after.pending_prompt == before.pending_prompt
                && after.current_player == before.current_player && after.discard_queue == before.discard_queue)
        &&& (ok && before.discard_targets@[before.current_player as int] == 1 && before.discard_queue@.len() > 0
                ==> after.pending_prompt == before.pending_prompt && after.current_player == before.discard_queue@[0]
                && after.discard_queue@ == before.discard_queue@.drop_first())
        &&& (ok && before.discard_targets@[before.current_player as int] == 1 && before.discard_queue@.len() == 0
                ==> after.pending_prompt == ActionPrompt::MoveRobber && after.current_player == before.turn_owner)
    }

    /// Discards one card of the chosen kind; after the player's last required card the
    /// next player in the queue discards, or the robber moves.
    pub(crate) fn handle_discard_action(&mut self, action: &mut GameAction) -> (r: Result<(), GameError>)
        requires
            old(self).wf(),
            old(action).player_index == old(self).current_player,
        ensures
            final(self).handled(old(self), r.is_err()),
            *final(action) == *old(action),
            r.is_ok() ==> old(self).discard_targets@[old(self).current_player as int] > 0,
            r.is_ok() ==> (old(action).payload matches ActionPayload::Resource(res)
                && final(self).players@[old(self).current_player as int].resources.count(res)
                    == old(self).players@[old(self).current_player as int].resources.count(res) - 1),
            r.is_ok() ==> final(self).discard_targets@[old(self).current_player as int] == old(self).discard_targets@[old(self).current_player as int] - 1,
            GameState::discarded(*old(self), *final(self), *old(action), r.is_ok()),
            r.is_ok() <==> old(self).accepts_discard(*old(action)),
            r.is_ok() ==> (old(action).payload matches ActionPayload::Resource(res) && {
                let ri = spec_resource_index(res);
                let c = old(self).current_player as int;
                &&& final(self).bank.resources.at(ri) == old(self).bank.resources.at(ri) + 1
                &&& forall|i: int| 0 <= i < 5 && i != ri ==> #[trigger] final(self).bank.resources.at(i) == old(self).bank.resources.at(i)
                    && final(self).players@[c].resources.at(i) == old(self).players@[c].resources.at(i)
                &&& forall|q: int| 0 <= q < old(self).players@.len() && q != c ==> #[trigger] final(self).players@[q] == old(self).players@[q]
            }),
            r.is_ok() && old(self).discard_targets@[old(self).current_player as int] > 1 ==> final(self).pending_prompt == old(self).pending_prompt
                && final(self).current_player == old(self).current_player && final(self).discard_queue == old(self).discard_queue,
            r.is_ok() && old(self).discard_targets@[old(self).current_player as int] == 1 && old(self).discard_queue@.len() > 0
                ==> final(self).pending_prompt == old(self).pending_prompt && final(self).current_player == old(self).discard_queue@[0]
                && final(self).discard_queue@ == old(self).discard_queue@.drop_first(),
            r.is_ok() && old(self).discard_targets@[old(self).current_player as int] == 1 && old(self).discard_queue@.len() == 0
                ==> final(self).pending_prompt == ActionPrompt::MoveRobber && final(self).current_player == old(self).turn_owner,
    {
        if action.action_type != ActionType::Discard {
            return Err(GameError::InvalidPrompt { prompt: ActionPrompt::Discard, action: action.action_type });
        }
        let p = action.player_index;
        let required = self.discard_targets[p];
        if required == 0 {
            return Err(GameError::IllegalAction);
        }
        let res = match action.payload {
            ActionPayload::Resource(res) => res,
            _ => {
                return Err(GameError::InvalidPayload);
            },
        };
        let bundle = single_bundle(res, 1);
        assert(bundle.at(spec_resource_index(res)) == 1);
        proof {
            crate::engine::lemma_covers_single(self.players@[p as int].resources, bundle, res, 1);
        }
        match self.player_to_bank(p, &bundle) {
            Ok(()) => {},
            Err(e) => {
                return Err(e);
            },
        }
        assert(self.players@[p as int].resources.at(spec_resource_index(res)) == old(self).players@[p as int].resources.at(spec_resource_index(res)) - 1);
        self.discard_targets.set(p, required - 1);
        if required == 1 {
            if self.discard_queue.len() > 0 {
                let next = self.discard_queue.remove(0);
                assert(self.discard_queue@ =~= old(self).discard_queue@.drop_first());
                self.current_player = next;
            } else {
                self.pending_prompt = ActionPrompt::MoveRobber;
                self.current_player = self.turn_owner;
            }
        }
        Ok(())
    }

    /// Takes one card from `victim`: the given kind when replaying a recorded steal,
    /// else a card drawn uniformly from the victim's hand.
    fn steal_resource(&mut self, thief: usize, victim: usize, wanted: Option<Resource>) -> (r: Option<Resource>)
        requires
            old(self).wf(),
            thief < old(self).num_players(),
            victim < old(self).num_players(),
            thief != victim,
            wanted.is_some() ==> old(self).players@[victim as int].resources.count(wanted.unwrap()) > 0,
        ensures
            final(self).handled(old(self), false),
            old(self).players@[victim as int].resources.spec_total() == 0 ==> r.is_none(),
            wanted.is_some() ==> r == wanted,
            r.is_some() ==> final(self).players@[victim as int].resources.count(r.unwrap()) + 1
                == old(self).players@[victim as int].resources.count(r.unwrap()),
            old(self).players@[victim as int].resources.spec_total() > 0 ==> r.is_some(),
            r.is_some() ==> final(self).players@[thief as int].resources.count(r.unwrap())
                == old(self).players@[thief as int].resources.count(r.unwrap()) + 1,
            r.is_some() ==> forall|i: int| 0 <= i < 5 && i != spec_resource_index(r.unwrap()) ==>
                #[trigger] final(self).players@[victim as int].resources.at(i) == old(self).players@[victim as int].resources.at(i)
                && final(self).players@[thief as int].resources.at(i) == old(self).players@[thief as int].resources.at(i),
            forall|q: int| 0 <= q < old(self).players@.len() && q != thief && q != victim ==> #[trigger] final(self).players@[q] == old(self).players@[q],
            r.is_none() ==> final(self).players == old(self).players,
            *final(self) == (GameState { players: final(self).players, rng: final(self).rng, ..*old(self) }),
    {
        let choice = match wanted {
            Some(w) => w,
            None => {
                let mut bag: Vec<Resource> = Vec::new();
                let mut i: usize = 0;
                while i < 5
                    invariant
                        self.wf(),
                        *self == *old(self),
                        victim < self.num_players(),
                        0 <= i <= 5,
                        forall|k: int| 0 <= k < bag@.len() ==> #[trigger] self.players@[victim as int].resources.count(bag@[k]) > 0,
                        bag@.len() == 0 ==> forall|j: int| 0 <= j < i ==> #[trigger] self.players@[victim as int].resources.at(j) == 0,
                    decreases 5 - i,
                {
                    let res = resource_at(i);
                    let amount = self.players[victim].resources.get(res);
                    let mut c: u8 = 0;
                    while c < amount
                        invariant
                            victim < self.num_players(),
                            0 <= c <= amount,
                            amount == self.players@[victim as int].resources.count(res),
                            forall|k: int| 0 <= k < bag@.len() ==> #[trigger] self.players@[victim as int].resources.count(bag@[k]) > 0,
                            bag@.len() == 0 ==> c == 0 && forall|j: int| 0 <= j < i ==> #[trigger] self.players@[victim as int].resources.at(j) == 0,
                        decreases amount - c,
                    {
                        bag.push(res);
                        c = c + 1;
                    }
                    i = i + 1;
                }
                if bag.len() == 0 {
                    assert(self.players@[victim as int].resources.spec_total() == 0) by {
                        assert(self.players@[victim as int].resources.at(0) == 0);
                        assert(self.players@[victim as int].resources.at(1) == 0);
                        assert(self.players@[victim as int].resources.at(2) == 0);
                        assert(self.players@[victim as int].resources.at(3) == 0);
                        assert(self.players@[victim as int].resources.at(4) == 0);
                    }
                    return None;
                }
                let k = random_below(&mut self.rng, bag.len());
                bag[k]
            },
        };
        assert(self.players@[victim as int].resources.count(choice) > 0);
        let taken = single_bundle(choice, 1);
        assert(taken.at(spec_resource_index(choice)) == 1);
        assert(self.players@[victim as int].resources.covers(taken));
        let ghost before = self.players@[victim as int].resources;
        let ghost tb = self.players@[thief as int].resources;
        let ghost all_before = self.players@;
        self.player_to_player(victim, thief, &taken);
        assert(self.players@[victim as int].resources.at(spec_resource_index(choice)) == before.at(spec_resource_index(choice)) - 1);
        assert(self.players@[thief as int].resources.at(spec_resource_index(choice)) == tb.at(spec_resource_index(choice)) + 1);
        assert(forall|i: int| 0 <= i < 5 && i != spec_resource_index(choice) ==> #[trigger] taken.at(i) == 0);
        assert(all_before == old(self).players@);
        Some(choice)
    }

    /// Moves the robber to a land tile and, if a victim is named, steals one card
    /// from them; the stolen kind is recorded in the action.
    pub(crate) fn handle_move_robber_action(&mut self, action: &mut GameAction) -> (r: Result<(), GameError>)
        requires
            old(self).wf(),
            old(action).player_index == old(self).current_player,
        ensures
            final(self).handled(old(self), r.is_err()),
            r.is_err() ==> *final(action) == *old(action),
            r.is_ok() ==> (old(action).payload matches ActionPayload::Robber { tile_id, .. } && final(self).robber_tile == tile_id),
            r.is_ok() ==> final(self).pending_prompt == ActionPrompt::PlayTurn,
            old(self).accepts_robber_move(*old(action)) ==> r.is_ok(),
            r.is_ok() ==> final(self).bank == old(self).bank,
            r.is_ok() && (old(action).payload matches ActionPayload::Robber { victim: Some(_), resource: Some(_), .. })
                ==> final(action).payload == old(action).payload,
            r.is_ok() ==> old(action).action_type == ActionType::MoveRobber && final(action).player_index == old(action).player_index
                && final(action).action_type == old(action).action_type,
            r.is_ok() && !(old(action).payload matches ActionPayload::Robber { victim: Some(v), .. } && v != old(self).current_player
                && old(self).players@[v as int].resources.spec_total() > 0) ==> final(self).players == old(self).players,
            r.is_ok() && (old(action).payload matches ActionPayload::Robber { victim: Some(v), .. } && v != old(self).current_player
                && old(self).players@[v as int].resources.spec_total() > 0) ==> old(self).robbed(*old(action), *final(action), *final(self)),
    {
        if action.action_type != ActionType::MoveRobber {
            return Err(GameError::InvalidPrompt { prompt: ActionPrompt::MoveRobber, action: action.action_type });
        }
        let (tile_id, victim, wanted) = match action.payload {
            ActionPayload::Robber { tile_id, victim, resource } => (tile_id, victim, resource),
            _ => {
                return Err(GameError::InvalidPayload);
            },
        };
        let mut found = false;
        let mut t: usize = 0;
        while t < self.map.land_tiles.len()
            invariant
                0 <= t <= self.map.land_tiles@.len(),
                found ==> self.has_tile(tile_id),
                !found ==> forall|j: int| 0 <= j < t ==> (#[trigger] self.map.land_tiles@[j]).id != tile_id,
            decreases self.map.land_tiles@.len() - t,
        {
            if self.map.land_tiles[t].id == tile_id {
                found = true;
            }
            t = t + 1;
        }
        if !found {
            return Err(GameError::IllegalAction);
        }
        let thief = self.current_player;
        match victim {
            Some(v) => {
                if v >= self.players.len() {
                    return Err(GameError::InvalidPlayer(v));
                }
                match wanted {
                    Some(w) => {
                        if v == thief || self.players[v].resources.get(w) == 0 {
                            return Err(GameError::IllegalAction);
                        }
                    },
                    None => {},
                }
            },
            None => {},
        }
        self.robber_tile = tile_id;
        match victim {
            Some(v) => {
                let ghost pre = *self;
                let stolen = if v == thief { None } else { self.steal_resource(thief, v, wanted) };
                action.payload = ActionPayload::Robber { tile_id, victim: Some(v), resource: stolen };
                proof {
                    assert(pre.players == old(self).players);
                    if v != thief && old(self).players@[v as int].resources.spec_total() > 0 {
                        let k = stolen.unwrap();
                        assert(action.payload == ActionPayload::Robber { tile_id, victim: Some(v), resource: Some(k) });
                        assert(self.players@.len() == old(self).players@.len());
                        assert forall|i: int| 0 <= i < 5 && i != spec_resource_index(k) implies #[trigger] self.players@[v as int].resources.at(i)
                            == old(self).players@[v as int].resources.at(i)
                            && self.players@[thief as int].resources.at(i) == old(self).players@[thief as int].resources.at(i) by {
                            assert(pre.players@[v as int].resources.at(i) == old(self).players@[v as int].resources.at(i));
                        }
                        assert forall|q: int| 0 <= q < old(self).players@.len() && q != thief as int && q != v as int
                            implies #[trigger] self.players@[q] == old(self).players@[q] by {
                            assert(self.players@[q] == pre.players@[q]);
                        }
                        assert(self.players@[v as int].resources.count(k) + 1 == old(self).players@[v as int].resources.count(k));
                        assert(self.players@[thief as int].resources.count(k) == old(self).players@[thief as int].resources.count(k) + 1);
                        assert(old(self).robbed(*old(action), *action, *self));
                    }
                }
            },
            None => {},
        }
        self.pending_prompt = ActionPrompt::PlayTurn;
        Ok(())
    }

    /// A player answers a trade offer: accepting needs the cards asked for.
    pub(crate) fn handle_trade_response_action(&mut self, action: &GameAction) -> (r: Result<(), GameError>)
        requires
            old(self).wf(),
            action.player_index == old(self).current_player,
        ensures
            final(self).handled(old(self), r.is_err()),
            final(self).players == old(self).players,
            final(self).bank == old(self).bank,
            r.is_ok() <==> old(self).accepts_trade_response(*action),
    {
        let (offerer, receive) = match &self.trade_state {
            Some(state) => (state.offerer, state.receive),
            None => {
                return Err(GameError::IllegalAction);
            },
        };
        let p = action.player_index;
        if p == offerer {
            return Err(GameError::IllegalAction);
        }
        match action.action_type {
            ActionType::AcceptTrade => {
                if !self.players[p].resources.can_afford(&receive) {
                    return Err(GameError::InsufficientResources);
                }
                let mut state = self.trade_state.take().unwrap();
                state.acceptees.push(p);
                self.trade_state = Some(state);
                self.advance_trade_queue();
                Ok(())
            },
            ActionType::RejectTrade => {
                self.advance_trade_queue();
                Ok(())
            },
            _ => Err(GameError::IllegalAction),
        }
    }

    /// The offerer cancels, or confirms with one player who accepted; the swap happens
    /// only if both sides can still pay.
    pub(crate) fn handle_trade_confirmation_action(&mut self, action: &GameAction) -> (r: Result<(), GameError>)
        requires
            old(self).wf(),
            action.player_index == old(self).current_player,
        ensures
            final(self).handled(old(self), r.is_err()),
            r.is_ok() ==> final(self).trade_state.is_none() && final(self).pending_prompt == ActionPrompt::PlayTurn,
            r.is_ok() <==> old(self).accepts_trade_confirmation(*action),
            r.is_ok() ==> final(self).current_player == old(self).trade_state.unwrap().offerer && final(self).bank == old(self).bank,
            r.is_ok() && action.action_type == ActionType::CancelTrade ==> final(self).players == old(self).players,
            r.is_ok() && action.action_type == ActionType::ConfirmTrade ==> (action.payload matches ActionPayload::Trade { partner: Some(x), .. } && {
                let ts = old(self).trade_state.unwrap();
                let o = ts.offerer as int;
                &&& forall|i: int| 0 <= i < 5 ==> #[trigger] final(self).players@[o].resources.at(i)
                    == old(self).players@[o].resources.at(i) - ts.give.at(i) + ts.receive.at(i)
                &&& forall|i: int| 0 <= i < 5 ==> #[trigger] final(self).players@[x as int].resources.at(i)
                    == old(self).players@[x as int].resources.at(i) - ts.receive.at(i) + ts.give.at(i)
                &&& forall|q: int| 0 <= q < old(self).players@.len() && q != o && q != x ==> #[trigger] final(self).players@[q] == old(self).players@[q]
            }),
    {
        let (offerer, give, receive) = match &self.trade_state {
            Some(state) => (state.offerer, state.give, state.receive),
            None => {
                return Err(GameError::IllegalAction);
            },
        };
        if action.player_index != offerer {
            return Err(GameError::IllegalAction);
        }
        match action.action_type {
            ActionType::CancelTrade => {
                self.trade_state = None;
                self.trade_queue.clear();
                self.pending_prompt = ActionPrompt::PlayTurn;
                self.current_player = offerer;
                Ok(())
            },
            ActionType::ConfirmTrade => {
                let partner = match action.payload {
                    ActionPayload::Trade { partner: Some(x), .. } => x,
                    _ => {
                        return Err(GameError::InvalidPayload);
                    },
                };
                let accepted = match &self.trade_state {
                    Some(state) => contains_player(&state.acceptees, partner),
                    None => false,
                };
                if !accepted || partner >= self.players.len() || partner == offerer {
                    return Err(GameError::IllegalAction);
                }
                if !self.players[offerer].resources.can_afford(&give) {
                    return Err(GameError::InsufficientResources);
                }
                if !self.players[partner].resources.can_afford(&receive) {
                    return Err(GameError::InsufficientResources);
                }
                let ghost o0 = *self;
                self.player_to_player(offerer, partner, &give);
                let ghost o1 = *self;
                assert(self.players@[partner as int].resources.covers(receive));
                self.player_to_player(partner, offerer, &receive);
                assert forall|q: int| 0 <= q < o0.players@.len() && q != offerer && q != partner implies #[trigger] self.players@[q] == o0.players@[q] by {
                    assert(self.players@[q] == o1.players@[q]);
                }
                self.trade_state = None;
                self.trade_queue.clear();
                self.pending_prompt = ActionPrompt::PlayTurn;
                self.current_player = offerer;
                Ok(())
            },
            _ => Err(GameError::IllegalAction),
        }
    }
}

} // verus!
