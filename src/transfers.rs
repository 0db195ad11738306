use vstd::prelude::*;

use crate::players::PlayerState;
use crate::resources::ResourceBundle;
use crate::state::{
    lemma_player_sum_bound,
    lemma_player_sum_nonneg,
    lemma_player_sum_pair,
    lemma_player_sum_update,
    player_sum,
    GameState,
    GameError,
    SUPPLY_PER_RESOURCE,
};

verus! {

impl GameState {
    /// Moves `b` from the bank into the hand of player `p`.
    pub(crate) fn bank_to_player(&mut self, p: usize, b: &ResourceBundle)
        requires
            old(self).wf(),
            p < old(self).num_players(),
            old(self).bank.resources.covers(*b),
        ensures
            final(self).wf(),
            forall|i: int| 0 <= i < 5 ==> #[trigger] final(self).bank.resources.at(i) == old(self).bank.resources.at(i) - b.at(i),
            forall|i: int| 0 <= i < 5 ==> #[trigger] final(self).players@[p as int].resources.at(i) == old(self).players@[p as int].resources.at(i) + b.at(i),
            final(self).players@.len() == old(self).players@.len(),
            forall|q: int| 0 <= q < old(self).players@.len() && q != p ==> #[trigger] final(self).players@[q] == old(self).players@[q],
            final(self).players@[p as int] == (PlayerState { resources: final(self).players@[p as int].resources, ..old(self).players@[p as int] }),
            final(self).bank.development_deck == old(self).bank.development_deck,
            *final(self) == (GameState { bank: final(self).bank, players: final(self).players, ..*old(self) }),
    {
        let ghost ps = self.players@;
        proof {
            assert forall|i: int| 0 <= i < 5 implies #[trigger] ps[p as int].resources.at(i) + b.at(i) <= 255 by {
                lemma_player_sum_bound(ps, p as int, i);
                assert(self.bank.resources.at(i) + player_sum(ps, i) == SUPPLY_PER_RESOURCE as int);
            }
        }
        let _ = self.bank.dispense(b);
        self.players[p].add_resources(b);
        proof {
            assert(self.players@ == ps.update(p as int, self.players@[p as int]));
            assert forall|i: int| 0 <= i < 5 implies #[trigger] self.players@[p as int].resources.at(i) == ps[p as int].resources.at(i) + b.at(i) by {
                assert(self.players@[p as int].resources.counts@[i] == sat_at(ps[p as int].resources, *b, i));
            }
            assert forall|i: int| 0 <= i < 5 implies #[trigger] self.bank.resources.at(i) + player_sum(self.players@, i) == SUPPLY_PER_RESOURCE as int by {
                lemma_player_sum_update(ps, p as int, self.players@[p as int], i);
            }
            assert(self.conserved());
            assert forall|q: int| 0 <= q < self.num_players() implies (#[trigger] self.players@[q]).wf() by {
                assert(old(self).players@[q].wf());
            }
        }
    }
}

impl GameState {
    /// Moves `b` from the hand of player `p` into the bank, or nothing when `p` cannot afford it.
    pub(crate) fn player_to_bank(&mut self, p: usize, b: &ResourceBundle) -> (r: Result<(), GameError>)
        requires
            old(self).wf(),
            p < old(self).num_players(),
        ensures
            final(self).wf(),
            r.is_ok() <==> old(self).players@[p as int].resources.covers(*b),
            r.is_err() ==> r == Err::<(), GameError>(GameError::InsufficientResources) && *final(self) == *old(self),
            r.is_ok() ==> forall|i: int| 0 <= i < 5 ==> #[trigger] final(self).bank.resources.at(i) == old(self).bank.resources.at(i) + b.at(i),
            r.is_ok() ==> forall|i: int| 0 <= i < 5 ==> #[trigger] final(self).players@[p as int].resources.at(i) == old(self).players@[p as int].resources.at(i) - b.at(i),
            final(self).players@.len() == old(self).players@.len(),
            forall|q: int| 0 <= q < old(self).players@.len() && q != p ==> #[trigger] final(self).players@[q] == old(self).players@[q],
            final(self).players@[p as int] == (PlayerState { resources: final(self).players@[p as int].resources, ..old(self).players@[p as int] }),
            final(self).bank.development_deck == old(self).bank.development_deck,
            *final(self) == (GameState { bank: final(self).bank, players: final(self).players, ..*old(self) }),
    {
        let ghost ps = self.players@;
        if !self.players[p].resources.can_afford(b) {
            return Err(GameError::InsufficientResources);
        }
        let _ = self.players[p].remove_resources(b);
        proof {
            assert forall|i: int| 0 <= i < 5 implies #[trigger] self.bank.resources.at(i) + b.at(i) <= 255 by {
                lemma_player_sum_nonneg(ps, i);
                lemma_player_sum_bound(ps, p as int, i);
                assert(old(self).bank.resources.at(i) + player_sum(ps, i) == SUPPLY_PER_RESOURCE as int);
            }
        }
        let ghost bank_before = self.bank.resources;
        self.bank.receive(b);
        proof {
            assert(self.players@ == ps.update(p as int, self.players@[p as int]));
            assert forall|i: int| 0 <= i < 5 implies #[trigger] self.bank.resources.at(i) == bank_before.at(i) + b.at(i) by {
                assert(self.bank.resources.counts@[i] == sat_at(bank_before, *b, i));
            }
            assert forall|i: int| 0 <= i < 5 implies #[trigger] self.bank.resources.at(i) + player_sum(self.players@, i) == SUPPLY_PER_RESOURCE as int by {
                lemma_player_sum_update(ps, p as int, self.players@[p as int], i);
            }
            assert(self.conserved());
            assert forall|q: int| 0 <= q < self.num_players() implies (#[trigger] self.players@[q]).wf() by {
                assert(old(self).players@[q].wf());
            }
        }
        Ok(())
    }

    /// Moves `b` from the hand of `from` into the hand of `to`.
    pub(crate) fn player_to_player(&mut self, from: usize, to: usize, b: &ResourceBundle)
        requires
            old(self).wf(),
            from < old(self).num_players(),
            to < old(self).num_players(),
            from != to,
            old(self).players@[from as int].resources.covers(*b),
        ensures
            final(self).wf(),
            forall|i: int| 0 <= i < 5 ==> #[trigger] final(self).players@[from as int].resources.at(i) == old(self).players@[from as int].resources.at(i) - b.at(i),
            forall|i: int| 0 <= i < 5 ==> #[trigger] final(self).players@[to as int].resources.at(i) == old(self).players@[to as int].resources.at(i) + b.at(i),
            final(self).players@.len() == old(self).players@.len(),
            forall|q: int| 0 <= q < old(self).players@.len() && q != from && q != to ==> #[trigger] final(self).players@[q] == old(self).players@[q],
            final(self).players@[from as int] == (PlayerState { resources: final(self).players@[from as int].resources, ..old(self).players@[from as int] }),
            final(self).players@[to as int] == (PlayerState { resources: final(self).players@[to as int].resources, ..old(self).players@[to as int] }),
            *final(self) == (GameState { players: final(self).players, ..*old(self) }),
    {
        let ghost ps = self.players@;
        let _ = self.players[from].remove_resources(b);
        let ghost mid = self.players@;
        proof {
            assert(mid == ps.update(from as int, mid[from as int]));
            assert forall|i: int| 0 <= i < 5 implies #[trigger] player_sum(mid, i) == player_sum(ps, i) - b.at(i) by {
                lemma_player_sum_update(ps, from as int, mid[from as int], i);
            }
            assert(mid[to as int] == ps[to as int]);
            assert forall|i: int| 0 <= i < 5 implies #[trigger] mid[to as int].resources.at(i) + b.at(i) <= 255 by {
                lemma_player_sum_pair(ps, to as int, from as int, i);
                lemma_player_sum_nonneg(ps, i);
                assert(old(self).bank.resources.at(i) + player_sum(ps, i) == SUPPLY_PER_RESOURCE as int);
            }
        }
        self.players[to].add_resources(b);
        proof {
            assert(self.players@ == mid.update(to as int, self.players@[to as int]));
            assert forall|i: int| 0 <= i < 5 implies #[trigger] self.players@[to as int].resources.at(i) == mid[to as int].resources.at(i) + b.at(i) by {
                assert(self.players@[to as int].resources.counts@[i] == sat_at(mid[to as int].resources, *b, i));
            }
            assert forall|i: int| 0 <= i < 5 implies #[trigger] self.bank.resources.at(i) + player_sum(self.players@, i) == SUPPLY_PER_RESOURCE as int by {
                lemma_player_sum_update(mid, to as int, self.players@[to as int], i);
            }
            assert(self.conserved());
            assert forall|q: int| 0 <= q < self.num_players() implies (#[trigger] self.players@[q]).wf() by {
                assert(old(self).players@[q].wf());
            }
        }
    }
}

pub open spec fn sat_at(a: ResourceBundle, b: ResourceBundle, i: int) -> u8 {
    crate::resources::sat_add(a.counts@[i], b.counts@[i])
}

} // verus!
