use vstd::prelude::*;

use crate::action::ActionPayload;
use crate::bank::card_count;
use crate::engine::single_bundle;
use crate::players::PlayerState;
use crate::state::{GameError, GameState};
use crate::types::{spec_resource_index, ActionPrompt, DevelopmentCard, Resource};

verus! {

/// Cards at position `i` held by the first `q` players other than `p`.
pub open spec fn others_holding(ps: Seq<PlayerState>, p: int, i: int, q: int) -> int
    decreases q,
{
    if q <= 0 {
        0
    } else {
        others_holding(ps, p, i, q - 1) + if q - 1 == p { 0 } else { ps[q - 1].resources.at(i) }
    }
}

proof fn lemma_others_holding_resources_eq(a: Seq<PlayerState>, b: Seq<PlayerState>, p: int, i: int, q: int)
    requires
        0 <= q <= a.len(),
        a.len() == b.len(),
        forall|j: int| 0 <= j < a.len() ==> #[trigger] a[j].resources == b[j].resources,
    ensures
        others_holding(a, p, i, q) == others_holding(b, p, i, q),
    decreases q,
{
    if q > 0 {
        lemma_others_holding_resources_eq(a, b, p, i, q - 1);
    }
}

impl GameState {
    /// Plays a knight: the army bonus is re-decided and the player moves the robber.
    pub(crate) fn turn_play_knight(&mut self, p: usize) -> (r: Result<(), GameError>)
        requires
            old(self).wf(),
            p < old(self).num_players(),
        ensures
            final(self).handled(old(self), r.is_err()),
            r.is_ok() <==> !old(self).players@[p as int].has_played_dev_card_this_turn
                && card_count(old(self).players@[p as int].dev_cards@, DevelopmentCard::Knight) > 0,
            r.is_ok() ==> final(self).pending_prompt == ActionPrompt::MoveRobber && final(self).current_player == p,
    {
        match self.ensure_dev_card_available(p, DevelopmentCard::Knight) {
            Ok(()) => {},
            Err(e) => {
                return Err(e);
            },
        }
        self.update_largest_army();
        self.pending_prompt = ActionPrompt::MoveRobber;
        self.current_player = p;
        Ok(())
    }

    /// Plays year of plenty: one or two cards of the player's choice from the bank,
    /// all or nothing.
    pub(crate) fn turn_play_year_of_plenty(&mut self, p: usize, payload: ActionPayload) -> (r: Result<(), GameError>)
        requires
            old(self).wf(),
            p < old(self).num_players(),
        ensures
            final(self).handled(old(self), r.is_err()),
            r.is_ok() ==> (payload matches ActionPayload::Resources(b) && 1 <= b.spec_total() <= 2
                && old(self).bank.resources.covers(b)
                && forall|i: int| 0 <= i < 5 ==> #[trigger] final(self).players@[p as int].resources.at(i) == old(self).players@[p as int].resources.at(i) + b.at(i)),
            (payload matches ActionPayload::Resources(b) && (b.spec_total() == 0 || b.spec_total() > 2))
                ==> r == Err::<(), GameError>(GameError::InvalidPayload),
            r.is_ok() <==> (payload matches ActionPayload::Resources(b) && 1 <= b.spec_total() <= 2
                && old(self).bank.resources.covers(b))
                && !old(self).players@[p as int].has_played_dev_card_this_turn
                && card_count(old(self).players@[p as int].dev_cards@, DevelopmentCard::YearOfPlenty) > 0,
            (payload matches ActionPayload::Resources(b) && 1 <= b.spec_total() <= 2 && !old(self).bank.resources.covers(b))
                && !old(self).players@[p as int].has_played_dev_card_this_turn
                && card_count(old(self).players@[p as int].dev_cards@, DevelopmentCard::YearOfPlenty) > 0
                ==> r == Err::<(), GameError>(GameError::BankOutOfResources),
            r.is_ok() ==> (payload matches ActionPayload::Resources(b)
                && forall|i: int| 0 <= i < 5 ==> #[trigger] final(self).bank.resources.at(i) == old(self).bank.resources.at(i) - b.at(i)),
            r.is_ok() ==> card_count(final(self).players@[p as int].dev_cards@, DevelopmentCard::YearOfPlenty) + 1
                == card_count(old(self).players@[p as int].dev_cards@, DevelopmentCard::YearOfPlenty)
                && final(self).players@[p as int].has_played_dev_card_this_turn,
            r.is_ok() ==> forall|q: int| 0 <= q < old(self).players@.len() && q != p ==> #[trigger] final(self).players@[q] == old(self).players@[q],
    {
        let bundle = match payload {
            ActionPayload::Resources(b) => b,
            _ => {
                return Err(GameError::InvalidPayload);
            },
        };
        let total = bundle.total();
        if total == 0 || total > 2 {
            return Err(GameError::InvalidPayload);
        }
        if !self.players[p].can_play_dev_card(DevelopmentCard::YearOfPlenty) {
            return Err(GameError::IllegalAction);
        }
        if !self.bank.resources.can_afford(&bundle) {
            return Err(GameError::BankOutOfResources);
        }
        let _ = self.ensure_dev_card_available(p, DevelopmentCard::YearOfPlenty);
        let ghost mid = *self;
        self.bank_to_player(p, &bundle);
        assert forall|q: int| 0 <= q < old(self).players@.len() && q != p implies #[trigger] self.players@[q] == old(self).players@[q] by {
            assert(self.players@[q] == mid.players@[q]);
        }
        Ok(())
    }

    /// Plays monopoly: every other player hands the player all their cards of one kind.
    pub(crate) fn turn_play_monopoly(&mut self, p: usize, payload: ActionPayload) -> (r: Result<(), GameError>)
        requires
            old(self).wf(),
            p < old(self).num_players(),
        ensures
            final(self).handled(old(self), r.is_err()),
            r.is_ok() ==> (payload matches ActionPayload::Resource(res) &&
                forall|q: int| 0 <= q < old(self).players@.len() && q != p ==> #[trigger] final(self).players@[q].resources.count(res) == 0),
            r.is_ok() <==> (payload matches ActionPayload::Resource(_))
                && !old(self).players@[p as int].has_played_dev_card_this_turn
                && card_count(old(self).players@[p as int].dev_cards@, DevelopmentCard::Monopoly) > 0,
            r.is_ok() ==> (payload matches ActionPayload::Resource(res) && {
                let ri = spec_resource_index(res);
                &&& final(self).players@[p as int].resources.at(ri)
                    == old(self).players@[p as int].resources.at(ri) + others_holding(old(self).players@, p as int, ri, old(self).players@.len() as int)
                &&& forall|q: int, i: int| 0 <= q < old(self).players@.len() && 0 <= i < 5 && i != ri
                    ==> #[trigger] final(self).players@[q].resources.at(i) == old(self).players@[q].resources.at(i)
            }),
            r.is_ok() ==> final(self).bank == old(self).bank,
            r.is_ok() ==> card_count(final(self).players@[p as int].dev_cards@, DevelopmentCard::Monopoly) + 1
                == card_count(old(self).players@[p as int].dev_cards@, DevelopmentCard::Monopoly)
                && final(self).players@[p as int].has_played_dev_card_this_turn,
    {
        let resource = match payload {
            ActionPayload::Resource(res) => res,
            _ => {
                return Err(GameError::InvalidPayload);
            },
        };
        match self.ensure_dev_card_available(p, DevelopmentCard::Monopoly) {
            Ok(()) => {},
            Err(e) => {
                return Err(e);
            },
        }
        let ghost o = *old(self);
        let ghost mid = *self;
        let ghost ri = spec_resource_index(resource);
        let n = self.players.len();
        let mut q: usize = 0;
        while q < n
            invariant
                self.handled(&o, false),
                n == self.num_players(),
                n == mid.players@.len(),
                p < n,
                0 <= q <= n,
                ri == spec_resource_index(resource),
                self.bank == mid.bank,
                forall|j: int| 0 <= j < q && j != p ==> #[trigger] self.players@[j].resources.count(resource) == 0,
                self.players@[p as int].resources.at(ri) == mid.players@[p as int].resources.at(ri) + others_holding(mid.players@, p as int, ri, q as int),
                forall|j: int| q <= j < n && j != p ==> #[trigger] self.players@[j].resources == mid.players@[j].resources,
                forall|j: int, i: int| 0 <= j < n && 0 <= i < 5 && i != ri ==> #[trigger] self.players@[j].resources.at(i) == mid.players@[j].resources.at(i),
                forall|j: int| 0 <= j < n ==> #[trigger] self.players@[j].dev_cards == mid.players@[j].dev_cards,
                forall|j: int| 0 <= j < n ==> #[trigger] self.players@[j].has_played_dev_card_this_turn == mid.players@[j].has_played_dev_card_this_turn,
            decreases n - q,
        {
            if q != p {
                let amount = self.players[q].resources.get(resource);
                if amount > 0 {
                    let taken = single_bundle(resource, amount);
                    assert(self.players@[q as int].resources.covers(taken));
                    let ghost before = *self;
                    assert(taken.at(ri) == amount);
                    self.player_to_player(q, p, &taken);
                    assert(self.players@[q as int].resources.at(spec_resource_index(resource)) == 0);
                    assert forall|j: int| 0 <= j < q && j != p implies #[trigger] self.players@[j].resources.count(resource) == 0 by {
                        assert(self.players@[j] == before.players@[j]);
                    }
                    assert forall|j: int| q + 1 <= j < n && j != p implies #[trigger] self.players@[j].resources == mid.players@[j].resources by {
                        assert(self.players@[j] == before.players@[j]);
                    }
                    assert forall|j: int, i: int| 0 <= j < n && 0 <= i < 5 && i != ri implies #[trigger] self.players@[j].resources.at(i) == mid.players@[j].resources.at(i) by {
                        if j != q && j != p {
                            assert(self.players@[j] == before.players@[j]);
                        }
                        assert(taken.at(i) == 0);
                        assert(before.players@[j].resources.at(i) == mid.players@[j].resources.at(i));
                    }
                    assert forall|j: int| 0 <= j < n implies #[trigger] self.players@[j].dev_cards == mid.players@[j].dev_cards by {
                        assert(before.players@[j].dev_cards == mid.players@[j].dev_cards);
                        if j != q as int && j != p as int {
                            assert(self.players@[j] == before.players@[j]);
                        }
                    }
                    assert forall|j: int| 0 <= j < n implies #[trigger] self.players@[j].has_played_dev_card_this_turn
                        == mid.players@[j].has_played_dev_card_this_turn by {
                        assert(before.players@[j].has_played_dev_card_this_turn == mid.players@[j].has_played_dev_card_this_turn);
                        if j != q as int && j != p as int {
                            assert(self.players@[j] == before.players@[j]);
                        }
                    }
                }
            }
            q = q + 1;
        }
        assert(self.players@[p as int].dev_cards == mid.players@[p as int].dev_cards);
        assert forall|j: int, i: int| 0 <= j < n && 0 <= i < 5 && i != ri implies #[trigger] self.players@[j].resources.at(i) == o.players@[j].resources.at(i) by {
            assert(mid.players@[j].resources == o.players@[j].resources);
        }
        assert(mid.players@[p as int].resources == o.players@[p as int].resources);
        proof {
            lemma_others_holding_resources_eq(mid.players@, o.players@, p as int, ri, n as int);
        }
        Ok(())
    }

    /// Plays road building: the player may place two roads for free.
    pub(crate) fn turn_play_road_building(&mut self, p: usize) -> (r: Result<(), GameError>)
        requires
            old(self).wf(),
            p < old(self).num_players(),
        ensures
            final(self).handled(old(self), r.is_err()),
            r.is_ok() ==> final(self).road_building_player == Some(p) && final(self).road_building_free_roads == 2,
            r.is_ok() <==> !old(self).players@[p as int].has_played_dev_card_this_turn
                && card_count(old(self).players@[p as int].dev_cards@, DevelopmentCard::RoadBuilding) > 0,
    {
        match self.ensure_dev_card_available(p, DevelopmentCard::RoadBuilding) {
            Ok(()) => {},
            Err(e) => {
                return Err(e);
            },
        }
        self.road_building_player = Some(p);
        self.road_building_free_roads = 2;
        Ok(())
    }
}

} // verus!
