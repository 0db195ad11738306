use vstd::prelude::*;

use crate::bank::card_count;
use crate::board::NodeId;
use crate::resources::ResourceBundle;
use crate::state::{
    lemma_player_sum_resources_eq,
    player_sum,
    GameError,
    GameEvent,
    GameState,
    Structure,
    SUPPLY_PER_RESOURCE,
};
use crate::types::{ActionPrompt, DevelopmentCard, Resource};

verus! {

/// A bundle of `n` cards of kind `r`.
pub fn single_bundle(r: Resource, n: u8) -> (b: ResourceBundle)
    ensures
        b.counts@ == ResourceBundle::single(r, n),
        b.count(r) == n,
        b.spec_total() == n,
{
    let mut b = ResourceBundle::zero();
    b.add(r, n);
    assert(b.counts@ =~= ResourceBundle::single(r, n));
    b
}

/// A hand covers a single-kind bundle exactly when it holds that many of the kind.
pub proof fn lemma_covers_single(h: ResourceBundle, b: ResourceBundle, r: Resource, n: u8)
    requires
        b.counts@ == ResourceBundle::single(r, n),
    ensures
        h.covers(b) <==> h.count(r) >= n,
{
    let k = crate::types::spec_resource_index(r);
    if h.count(r) >= n {
        assert forall|i: int| 0 <= i < 5 implies #[trigger] h.at(i) >= b.counts@[i] by {
            if i != k {
                assert(b.counts@[i] == 0);
            }
        }
    }
    if h.covers(b) {
        assert(h.at(k) >= b.counts@[k]);
    }
}

/// In a strictly increasing sequence the first element is the least.
proof fn lemma_sorted_first_least(s: Seq<usize>, k: int)
    requires
        0 <= k < s.len(),
        forall|k2: int| 0 <= k2 < s.len() - 1 ==> #[trigger] s[k2] < s[k2 + 1],
    ensures
        s[0] <= s[k],
    decreases k,
{
    if k > 0 {
        lemma_sorted_first_least(s, k - 1);
        assert(s[k - 1] < s[k]);
    }
}

impl crate::board::CatanMap {
    /// How many of the tiles `ids` produce the resource at position `i`.
    pub open spec fn producing_count(&self, ids: Seq<u16>, i: int) -> int
        decreases ids.len(),
    {
        if ids.len() == 0 {
            0
        } else {
            self.producing_count(ids.drop_last(), i) + match GameState::tile_resource_in(self.land_tiles@, ids.last()) {
                Some(r) => if crate::types::spec_resource_index(r) == i { 1int } else { 0int },
                None => 0int,
            }
        }
    }

    /// The opening award for a settlement on `node`: one card per adjacent producing
    /// tile (each counter capped at the largest `u8`).
    pub open spec fn starting_award(&self, node: NodeId, i: int) -> int {
        let c = if (node as int) < self.adjacent_tiles@.len() {
            self.producing_count(self.adjacent_tiles@[node as int]@, i)
        } else {
            0
        };
        if c > 255 { 255 } else { c }
    }
}

impl GameState {
    /// The parts of the state that actions other than setup and victory never change.
    pub open spec fn same_frame(&self, o: &GameState) -> bool {
        &&& self.config == o.config
        &&& self.map == o.map
        &&& self.phase == o.phase
        &&& self.players@.len() == o.players@.len()
    }

    /// Everyone's buildings are as in `o`: only hands, cards and flags may differ.
    pub open spec fn same_buildings(&self, o: &GameState) -> bool {
        &&& self.node_occupancy == o.node_occupancy
        &&& self.road_occupancy == o.road_occupancy
        &&& forall|q: int| 0 <= q < o.players@.len() ==> {
            &&& (#[trigger] self.players@[q]).settlements == o.players@[q].settlements
            &&& self.players@[q].cities == o.players@[q].cities
            &&& self.players@[q].roads == o.players@[q].roads
        }
    }

    /// Plays one matured card of kind `card` for player `p`, or fails with nothing changed.
    pub(crate) fn ensure_dev_card_available(&mut self, p: usize, card: DevelopmentCard) -> (r: Result<(), GameError>)
        requires
            old(self).wf(),
            p < old(self).num_players(),
        ensures
            final(self).wf(),
            r.is_ok() <==> old(self).players@[p as int].has_played_dev_card_this_turn == false
                && card_count(old(self).players@[p as int].dev_cards@, card) > 0,
            r.is_err() ==> *final(self) == *old(self) && r == Err::<(), GameError>(GameError::IllegalAction),
            r.is_ok() ==> final(self).players@[p as int].has_played_dev_card_this_turn,
            r.is_ok() ==> card_count(final(self).players@[p as int].dev_cards@, card) + 1 == card_count(old(self).players@[p as int].dev_cards@, card),
            final(self).same_frame(old(self)),
            final(self).same_buildings(old(self)),
            forall|q: int| 0 <= q < old(self).players@.len() ==> #[trigger] final(self).players@[q].resources == old(self).players@[q].resources,
            forall|q: int| 0 <= q < old(self).players@.len() && q != p ==> #[trigger] final(self).players@[q] == old(self).players@[q],
            *final(self) == (GameState { players: final(self).players, ..*old(self) }),
    {
        if !self.players[p].can_play_dev_card(card) {
            return Err(GameError::IllegalAction);
        }
        let ghost o = *old(self);
        self.players[p].consume_dev_card(card);
        self.players[p].record_dev_card_play(card);
        proof {
            assert forall|q: int| 0 <= q < self.num_players() implies (#[trigger] self.players@[q]).wf() by {
                assert(o.players@[q].wf());
            }
            assert forall|i: int| 0 <= i < 5 implies #[trigger] self.bank.resources.at(i) + player_sum(self.players@, i) == SUPPLY_PER_RESOURCE as int by {
                lemma_player_sum_resources_eq(o.players@, self.players@, i);
            }
            crate::state::lemma_buildings_unchanged(o, *self);
        }
        Ok(())
    }

    /// Ends the turn of the current player and hands the dice to the next seat.
    pub(crate) fn advance_turn(&mut self, events: &mut Vec<GameEvent>)
        requires
            old(self).wf(),
        ensures
            final(self).wf(),
            final(self).same_frame(old(self)),
            final(self).same_buildings(old(self)),
            final(self).current_player == (old(self).current_player + 1) % (old(self).num_players() as int),
            final(self).turn_owner == final(self).current_player,
            final(self).awaiting_roll,
            final(self).pending_prompt == ActionPrompt::PlayTurn,
            final(self).road_building_player.is_none(),
            final(self).bank == old(self).bank,
            forall|q: int| 0 <= q < old(self).players@.len() ==> #[trigger] final(self).players@[q].resources == old(self).players@[q].resources,
            *final(self) == (GameState {
                players: final(self).players,
                road_building_player: final(self).road_building_player,
                road_building_free_roads: final(self).road_building_free_roads,
                current_player: final(self).current_player,
                turn_owner: final(self).turn_owner,
                turn: final(self).turn,
                awaiting_roll: final(self).awaiting_roll,
                pending_prompt: final(self).pending_prompt,
                ..*old(self)
            }),
    {
        let ghost o = *old(self);
        self.road_building_player = None;
        self.road_building_free_roads = 0;
        let finished = self.current_player;
        self.players[finished].reset_for_new_turn();
        self.current_player = (self.current_player + 1) % self.players.len();
        self.turn_owner = self.current_player;
        self.turn = self.turn.saturating_add(1);
        self.awaiting_roll = true;
        self.pending_prompt = ActionPrompt::PlayTurn;
        events.push(GameEvent::TurnAdvanced { next_player: self.current_player });
        proof {
            assert forall|q: int| 0 <= q < self.num_players() implies (#[trigger] self.players@[q]).wf() by {
                assert(o.players@[q].wf());
            }
            assert forall|i: int| 0 <= i < 5 implies #[trigger] self.bank.resources.at(i) + player_sum(self.players@, i) == SUPPLY_PER_RESOURCE as int by {
                lemma_player_sum_resources_eq(o.players@, self.players@, i);
            }
            crate::state::lemma_buildings_unchanged(o, *self);
        }
    }

    /// After a seven: every player holding more than seven cards must give up half
    /// (rounded down), one card per action, in seating order; then the robber moves.
    pub(crate) fn begin_discard_phase(&mut self)
        requires
            old(self).wf(),
        ensures
            final(self).wf(),
            final(self).same_frame(old(self)),
            final(self).players == old(self).players,
            final(self).bank == old(self).bank,
            final(self).node_occupancy == old(self).node_occupancy,
            final(self).road_occupancy == old(self).road_occupancy,
            *final(self) == (GameState {
                discard_queue: final(self).discard_queue,
                discard_targets: final(self).discard_targets,
                pending_prompt: final(self).pending_prompt,
                current_player: final(self).current_player,
                ..*old(self)
            }),
            forall|q: int| 0 <= q < old(self).players@.len() ==> #[trigger] final(self).discard_targets@[q]
                == if old(self).players@[q].resources.spec_total() > 7 { old(self).players@[q].resources.spec_total() / 2 } else { 0 },
            final(self).pending_prompt == ActionPrompt::Discard || final(self).pending_prompt == ActionPrompt::MoveRobber,
            final(self).pending_prompt == ActionPrompt::MoveRobber <==> forall|q: int| 0 <= q < old(self).players@.len()
                ==> #[trigger] old(self).players@[q].resources.spec_total() <= 7,
            final(self).pending_prompt == ActionPrompt::MoveRobber ==> final(self).current_player == old(self).turn_owner
                && final(self).discard_queue@.len() == 0,
            final(self).pending_prompt == ActionPrompt::Discard ==> {
                let c = final(self).current_player as int;
                let dq = final(self).discard_queue@;
                &&& old(self).players@[c].resources.spec_total() > 7
                &&& forall|j: int| 0 <= j < c ==> #[trigger] old(self).players@[j].resources.spec_total() <= 7
                &&& forall|k: int| 0 <= k < dq.len() ==> c < #[trigger] dq[k] && old(self).players@[dq[k] as int].resources.spec_total() > 7
                &&& forall|k: int| 0 <= k < dq.len() - 1 ==> #[trigger] dq[k] < dq[k + 1]
                &&& forall|j: int| 0 <= j < old(self).players@.len() && j != c && #[trigger] old(self).players@[j].resources.spec_total() > 7
                    ==> dq.contains(j as usize)
            },
    {
        self.discard_queue.clear();
        let n = self.players.len();
        let mut targets: Vec<u8> = Vec::new();
        let mut queue: Vec<usize> = Vec::new();
        let mut q: usize = 0;
        while q < n
            invariant
                self.wf(),
                n == self.num_players(),
                0 <= q <= n,
                targets@.len() == q,
                forall|j: int| 0 <= j < q ==> #[trigger] targets@[j]
                    == if self.players@[j].resources.spec_total() > 7 { self.players@[j].resources.spec_total() / 2 } else { 0 },
                forall|k: int| 0 <= k < queue@.len() ==> #[trigger] queue@[k] < q && self.players@[queue@[k] as int].resources.spec_total() > 7,
                forall|k: int| 0 <= k < queue@.len() - 1 ==> #[trigger] queue@[k] < queue@[k + 1],
                forall|j: int| 0 <= j < q && #[trigger] self.players@[j].resources.spec_total() > 7 ==> queue@.contains(j as usize),
                queue@.len() == 0 <==> forall|j: int| 0 <= j < q ==> #[trigger] self.players@[j].resources.spec_total() <= 7,
            decreases n - q,
        {
            let total = self.players[q].resources.total();
            proof {
                assert forall|i: int| 0 <= i < 5 implies #[trigger] self.players@[q as int].resources.at(i) <= 19 by {
                    crate::state::lemma_player_sum_bound(self.players@, q as int, i);
                    crate::state::lemma_player_sum_nonneg(self.players@, i);
                    assert(self.bank.resources.at(i) + player_sum(self.players@, i) == SUPPLY_PER_RESOURCE as int);
                }
                assert(self.players@[q as int].resources.at(0) <= 19);
                assert(self.players@[q as int].resources.at(1) <= 19);
                assert(self.players@[q as int].resources.at(2) <= 19);
                assert(self.players@[q as int].resources.at(3) <= 19);
                assert(self.players@[q as int].resources.at(4) <= 19);
            }
            if total > 7 {
                targets.push((total / 2) as u8);
                let ghost qb = queue@;
                queue.push(q);
                assert forall|j: int| 0 <= j < q + 1 && #[trigger] self.players@[j].resources.spec_total() > 7 implies queue@.contains(j as usize) by {
                    if j < q {
                        let w = qb.index_of(j as usize);
                        assert(queue@[w] == j as usize);
                    } else {
                        assert(queue@[queue@.len() - 1] == q);
                    }
                }
            } else {
                targets.push(0);
            }
            q = q + 1;
        }
        self.discard_targets = targets;
        if queue.len() > 0 {
            let ghost qa = queue@;
            let next = queue.remove(0);
            assert(queue@ =~= qa.drop_first());
            proof {
                assert forall|k: int| 0 <= k < qa.len() implies qa[0] <= #[trigger] qa[k] by {
                    lemma_sorted_first_least(qa, k);
                }
                assert forall|j: int| 0 <= j < next && j < n implies #[trigger] self.players@[j].resources.spec_total() <= 7 by {
                    if self.players@[j].resources.spec_total() > 7 {
                        let w = qa.index_of(j as usize);
                        assert(qa[0] <= qa[w]);
                    }
                }
                assert forall|k: int| 0 <= k < queue@.len() implies next < #[trigger] queue@[k] by {
                    assert(queue@[k] == qa[k + 1]);
                    assert(qa[0] <= qa[k]);
                    assert(qa[k] < qa[k + 1]);
                }
                assert forall|j: int| 0 <= j < n && j != next && #[trigger] self.players@[j].resources.spec_total() > 7 implies queue@.contains(j as usize) by {
                    let w = qa.index_of(j as usize);
                    assert(w != 0);
                    assert(queue@[w - 1] == j as usize);
                }
            }
            self.discard_queue = queue;
            self.pending_prompt = ActionPrompt::Discard;
            self.current_player = next;
        } else {
            self.discard_queue = queue;
            self.pending_prompt = ActionPrompt::MoveRobber;
            self.current_player = self.turn_owner;
        }
    }

    /// Cards that a building on node `n` earns player `p` from an adjacent paying
    /// tile: one for a settlement of `p`, two for a city of `p`.
    pub open spec fn corner_share(&self, n: NodeId, p: int) -> int {
        if (n as int) < self.node_occupancy@.len() {
            match self.node_occupancy@[n as int] {
                Some(Structure::Settlement { player }) => if player == p { 1int } else { 0int },
                Some(Structure::City { player }) => if player == p { 2int } else { 0int },
                None => 0int,
            }
        } else {
            0
        }
    }

    /// Cards that a building on node `n` earns its owner, whoever that is.
    pub open spec fn corner_need(&self, n: NodeId) -> int {
        if (n as int) < self.node_occupancy@.len() {
            match self.node_occupancy@[n as int] {
                Some(Structure::Settlement { .. }) => 1int,
                Some(Structure::City { .. }) => 2int,
                None => 0int,
            }
        } else {
            0
        }
    }

    /// What the first `k` corners of tile `t` earn player `p`.
    pub open spec fn tile_share(&self, t: crate::board::LandTile, p: int, k: int) -> int
        decreases k,
    {
        if k <= 0 { 0 } else { self.tile_share(t, p, k - 1) + self.corner_share(t.nodes@[k - 1], p) }
    }

    /// What the first `k` corners of tile `t` earn all owners together.
    pub open spec fn tile_need(&self, t: crate::board::LandTile, k: int) -> int
        decreases k,
    {
        if k <= 0 { 0 } else { self.tile_need(t, k - 1) + self.corner_need(t.nodes@[k - 1]) }
    }

    /// Tile `t` pays out on `dice_sum`: its number, not robbed, producing, built on.
    pub open spec fn tile_pays(&self, t: crate::board::LandTile, dice_sum: u8) -> bool {
        &&& t.number == Some(dice_sum)
        &&& t.id != self.robber_tile
        &&& t.resource.is_some()
        &&& self.tile_need(t, 6) > 0
    }

    /// Tile `t` pays out, and the bank (holding `bank_r` of its resource) covers all of it.
    pub open spec fn tile_covered(&self, t: crate::board::LandTile, dice_sum: u8, bank_r: int) -> bool {
        self.tile_pays(t, dice_sum) && bank_r >= self.tile_need(t, 6)
    }

    /// The bank's counter `i` after the first `j` land tiles have paid out on `dice_sum`.
    pub open spec fn bank_after(&self, dice_sum: u8, j: int, i: int) -> int
        decreases j,
    {
        if j <= 0 {
            self.bank.resources.at(i)
        } else {
            let t = self.map.land_tiles@[j - 1];
            let ri = crate::types::spec_resource_index(t.resource.unwrap());
            let prev = self.bank_after(dice_sum, j - 1, i);
            if self.tile_covered(t, dice_sum, self.bank_after(dice_sum, j - 1, ri)) && i == ri {
                prev - self.tile_need(t, 6)
            } else {
                prev
            }
        }
    }

    /// Player `p`'s counter `i` after the first `j` land tiles have paid out on `dice_sum`.
    pub open spec fn hand_after(&self, dice_sum: u8, j: int, p: int, i: int) -> int
        decreases j,
    {
        if j <= 0 {
            self.players@[p].resources.at(i)
        } else {
            let t = self.map.land_tiles@[j - 1];
            let ri = crate::types::spec_resource_index(t.resource.unwrap());
            let prev = self.hand_after(dice_sum, j - 1, p, i);
            if self.tile_covered(t, dice_sum, self.bank_after(dice_sum, j - 1, ri)) && i == ri {
                prev + self.tile_share(t, p, 6)
            } else {
                prev
            }
        }
    }

    /// Payouts depend only on the board, the buildings, the robber, the bank and the hands.
    pub proof fn lemma_payout_frame(&self, b: &GameState, dice_sum: u8, j: int)
        requires
            self.map == b.map,
            self.node_occupancy == b.node_occupancy,
            self.robber_tile == b.robber_tile,
            self.bank == b.bank,
            self.players@.len() == b.players@.len(),
            forall|p: int| 0 <= p < self.players@.len() ==> #[trigger] self.players@[p].resources == b.players@[p].resources,
        ensures
            forall|i: int| #[trigger] self.bank_after(dice_sum, j, i) == b.bank_after(dice_sum, j, i),
            forall|p: int, i: int| 0 <= p < self.players@.len() ==> #[trigger] self.hand_after(dice_sum, j, p, i) == b.hand_after(dice_sum, j, p, i),
        decreases j,
    {
        if j > 0 {
            self.lemma_payout_frame(b, dice_sum, j - 1);
            let t = self.map.land_tiles@[j - 1];
            let ri = crate::types::spec_resource_index(t.resource.unwrap());
            self.lemma_tile_frame(b, t, 6);
            assert(self.tile_pays(t, dice_sum) == b.tile_pays(t, dice_sum));
            assert(self.bank_after(dice_sum, j - 1, ri) == b.bank_after(dice_sum, j - 1, ri));
            assert forall|i: int| #[trigger] self.bank_after(dice_sum, j, i) == b.bank_after(dice_sum, j, i) by {
                assert(self.bank_after(dice_sum, j - 1, i) == b.bank_after(dice_sum, j - 1, i));
            }
            assert forall|p: int, i: int| 0 <= p < self.players@.len() implies #[trigger] self.hand_after(dice_sum, j, p, i)
                == b.hand_after(dice_sum, j, p, i) by {
                self.lemma_tile_share_frame(b, t, p, 6);
                assert(self.hand_after(dice_sum, j - 1, p, i) == b.hand_after(dice_sum, j - 1, p, i));
            }
        } else {
            assert forall|p: int, i: int| 0 <= p < self.players@.len() implies #[trigger] self.hand_after(dice_sum, j, p, i)
                == b.hand_after(dice_sum, j, p, i) by {
                assert(self.players@[p].resources == b.players@[p].resources);
            }
        }
    }

    proof fn lemma_tile_frame(&self, b: &GameState, t: crate::board::LandTile, k: int)
        requires
            self.node_occupancy == b.node_occupancy,
        ensures
            self.tile_need(t, k) == b.tile_need(t, k),
        decreases k,
    {
        if k > 0 {
            self.lemma_tile_frame(b, t, k - 1);
        }
    }

    proof fn lemma_tile_share_frame(&self, b: &GameState, t: crate::board::LandTile, p: int, k: int)
        requires
            self.node_occupancy == b.node_occupancy,
        ensures
            self.tile_share(t, p, k) == b.tile_share(t, p, k),
        decreases k,
    {
        if k > 0 {
            self.lemma_tile_share_frame(b, t, p, k - 1);
        }
    }

    proof fn lemma_tile_need_mono(&self, t: crate::board::LandTile, k: int)
        requires
            0 <= k <= 6,
        ensures
            self.tile_need(t, k) <= self.tile_need(t, 6),
            self.tile_need(t, k) >= 0,
        decreases 6 - k,
    {
        if k < 6 {
            self.lemma_tile_need_mono(t, k + 1);
        }
        if k > 0 {
            self.lemma_tile_need_nonneg(t, k);
        }
    }

    proof fn lemma_tile_need_nonneg(&self, t: crate::board::LandTile, k: int)
        ensures
            self.tile_need(t, k) >= 0,
        decreases k,
    {
        if k > 0 {
            self.lemma_tile_need_nonneg(t, k - 1);
        }
    }

    /// Pays every building next to a land tile showing `dice_sum` (the robbed tile
    /// excepted): one card per settlement, two per city. Tiles are paid in order; a
    /// tile whose whole payout the bank cannot cover at its turn pays nothing.
    pub(crate) fn distribute_resources(&mut self, dice_sum: u8, events: &mut Vec<GameEvent>)
        requires
            old(self).wf(),
        ensures
            final(self).wf(),
            final(self).same_frame(old(self)),
            final(self).same_buildings(old(self)),
            *final(self) == (GameState { players: final(self).players, bank: final(self).bank, ..*old(self) }),
            forall|i: int| 0 <= i < 5 ==> #[trigger] final(self).bank.resources.at(i)
                == old(self).bank_after(dice_sum, old(self).map.land_tiles@.len() as int, i),
            forall|p: int, i: int| 0 <= p < old(self).players@.len() && 0 <= i < 5 ==> #[trigger] final(self).players@[p].resources.at(i)
                == old(self).hand_after(dice_sum, old(self).map.land_tiles@.len() as int, p, i),
    {
        let ghost o = *old(self);
        let mut t: usize = 0;
        while t < self.map.land_tiles.len()
            invariant
                self.wf(),
                self.same_frame(&o),
                self.same_buildings(&o),
                *self == (GameState { players: self.players, bank: self.bank, ..o }),
                0 <= t <= self.map.land_tiles@.len(),
                forall|i: int| 0 <= i < 5 ==> #[trigger] self.bank.resources.at(i) == o.bank_after(dice_sum, t as int, i),
                forall|p: int, i: int| 0 <= p < o.players@.len() && 0 <= i < 5 ==> #[trigger] self.players@[p].resources.at(i)
                    == o.hand_after(dice_sum, t as int, p, i),
            decreases self.map.land_tiles@.len() - t,
        {
            let tile = self.map.land_tiles[t];
            let ghost j = t as int;
            t = t + 1;
            let mut needed: u8 = 0;
            let mut k: usize = 0;
            while k < 6
                invariant
                    self.wf(),
                    *self == (GameState { players: self.players, bank: self.bank, ..o }),
                    0 <= k <= 6,
                    needed <= 2 * k,
                    needed == o.tile_need(tile, k as int),
                decreases 6 - k,
            {
                match self.node_owner(tile.nodes[k]) {
                    Some(_) => {
                        needed = needed + match self.node_occupancy[tile.nodes[k] as usize] {
                            Some(Structure::City { .. }) => 2u8,
                            _ => 1u8,
                        };
                    },
                    None => {},
                }
                k = k + 1;
            }
            let resource = match tile.resource {
                Some(r) => r,
                None => {
                    continue;
                },
            };
            let ghost ri = crate::types::spec_resource_index(resource);
            assert(tile == o.map.land_tiles@[j]);
            assert(self.bank.resources.at(ri) == o.bank_after(dice_sum, j, ri));
            if tile.number != Some(dice_sum) || tile.id == self.robber_tile || needed == 0
                || self.bank.available(resource) < needed {
                assert(!o.tile_covered(tile, dice_sum, o.bank_after(dice_sum, j, ri)));
                continue;
            }
            assert(o.tile_covered(tile, dice_sum, o.bank_after(dice_sum, j, ri)));
            let mut k: usize = 0;
            while k < 6
                invariant
                    self.wf(),
                    self.same_frame(&o),
                    self.same_buildings(&o),
                    *self == (GameState { players: self.players, bank: self.bank, ..o }),
                    0 <= k <= 6,
                    ri == crate::types::spec_resource_index(resource),
                    o.bank_after(dice_sum, j, ri) >= o.tile_need(tile, 6),
                    forall|i: int| 0 <= i < 5 ==> #[trigger] self.bank.resources.at(i)
                        == o.bank_after(dice_sum, j, i) - (if i == ri { o.tile_need(tile, k as int) } else { 0 }),
                    forall|p: int, i: int| 0 <= p < o.players@.len() && 0 <= i < 5 ==> #[trigger] self.players@[p].resources.at(i)
                        == o.hand_after(dice_sum, j, p, i) + (if i == ri { o.tile_share(tile, p, k as int) } else { 0 }),
                decreases 6 - k,
            {
                let node = tile.nodes[k];
                let ghost kk = k as int;
                proof {
                    o.lemma_tile_need_mono(tile, kk + 1);
                    o.lemma_tile_need_nonneg(tile, kk);
                }
                k = k + 1;
                let owner = match self.node_owner(node) {
                    Some(p) => p,
                    None => {
                        assert forall|p: int| #![auto] o.corner_share(node, p) == 0 by {}
                        continue;
                    },
                };
                let amount: u8 = match self.node_occupancy[node as usize] {
                    Some(Structure::City { .. }) => 2,
                    _ => 1,
                };
                let bundle = single_bundle(resource, amount);
                proof {
                    lemma_covers_single(self.bank.resources, bundle, resource, amount);
                }
                let ghost before = *self;
                self.bank_to_player(owner, &bundle);
                events.push(GameEvent::ResourcesDistributed { player: owner, bundle });
                proof {
                    assert forall|i: int| 0 <= i < 5 implies #[trigger] self.bank.resources.at(i)
                        == o.bank_after(dice_sum, j, i) - (if i == ri { o.tile_need(tile, k as int) } else { 0 }) by {
                        assert(before.bank.resources.at(i) == o.bank_after(dice_sum, j, i) - (if i == ri { o.tile_need(tile, kk) } else { 0 }));
                    }
                    assert forall|p: int, i: int| 0 <= p < o.players@.len() && 0 <= i < 5 implies #[trigger] self.players@[p].resources.at(i)
                        == o.hand_after(dice_sum, j, p, i) + (if i == ri { o.tile_share(tile, p, k as int) } else { 0 }) by {
                        assert(before.players@[p].resources.at(i) == o.hand_after(dice_sum, j, p, i) + (if i == ri { o.tile_share(tile, p, kk) } else { 0 }));
                        if p != owner as int {
                            assert(self.players@[p] == before.players@[p]);
                        }
                    }
                }
            }
            assert(tile == o.map.land_tiles@[j]);
        }
    }

    /// The bank can cover a non-empty opening award for `node`.
    pub open spec fn award_paid(&self, node: NodeId) -> bool {
        &&& exists|i: int| 0 <= i < 5 && self.map.starting_award(node, i) > 0
        &&& forall|i: int| 0 <= i < 5 ==> #[trigger] self.bank.resources.at(i) >= self.map.starting_award(node, i)
    }

    /// From `o` to `self`, player `p` received the opening award for `node` from the
    /// bank when the bank could cover it, and no card moved otherwise.
    pub open spec fn awarded(&self, o: &GameState, p: int, node: NodeId) -> bool {
        &&& o.award_paid(node) ==> forall|i: int| 0 <= i < 5 ==> #[trigger] self.players@[p].resources.at(i)
            == o.players@[p].resources.at(i) + o.map.starting_award(node, i)
        &&& o.award_paid(node) ==> forall|i: int| 0 <= i < 5 ==> #[trigger] self.bank.resources.at(i)
            == o.bank.resources.at(i) - o.map.starting_award(node, i)
        &&& !o.award_paid(node) ==> self.players@[p].resources == o.players@[p].resources && self.bank == o.bank
    }

    /// The resource of the first land tile in `tiles` with this id (`None` for the
    /// desert or an unknown id).
    pub open spec fn tile_resource_in(tiles: Seq<crate::board::LandTile>, id: u16) -> Option<Resource>
        decreases tiles.len(),
    {
        if tiles.len() == 0 {
            None
        } else if tiles[0].id == id {
            tiles[0].resource
        } else {
            GameState::tile_resource_in(tiles.drop_first(), id)
        }
    }

    pub fn tile_resource(&self, id: u16) -> (r: Option<Resource>)
        ensures
            r == GameState::tile_resource_in(self.map.land_tiles@, id),
    {
        let tiles = &self.map.land_tiles;
        let mut t: usize = 0;
        assert(tiles@.subrange(0, tiles@.len() as int) =~= tiles@);
        while t < tiles.len()
            invariant
                0 <= t <= tiles@.len(),
                tiles@ == self.map.land_tiles@,
                GameState::tile_resource_in(tiles@.subrange(t as int, tiles@.len() as int), id)
                    == GameState::tile_resource_in(tiles@, id),
            decreases tiles@.len() - t,
        {
            let ghost rest = tiles@.subrange(t as int, tiles@.len() as int);
            assert(rest.drop_first() =~= tiles@.subrange(t + 1, tiles@.len() as int));
            assert(rest[0] == tiles@[t as int]);
            if tiles[t].id == id {
                return tiles[t].resource;
            }
            t = t + 1;
        }
        assert(tiles@.subrange(t as int, tiles@.len() as int).len() == 0);
        None
    }

    /// The second opening settlement earns one card per adjacent producing tile,
    /// when the bank can cover all of them; otherwise nothing changes.
    pub(crate) fn award_starting_resources(&mut self, p: usize, node: NodeId, events: &mut Vec<GameEvent>)
        requires
            old(self).wf(),
            p < old(self).num_players(),
        ensures
            final(self).wf(),
            final(self).same_frame(old(self)),
            final(self).same_buildings(old(self)),
            *final(self) == (GameState { players: final(self).players, bank: final(self).bank, ..*old(self) }),
            final(self).awarded(old(self), p as int, node),
            forall|q: int| 0 <= q < old(self).players@.len() ==> #[trigger] final(self).players@[q].dev_cards == old(self).players@[q].dev_cards,
            !old(self).award_paid(node) ==> *final(self) == *old(self),
    {
        let mut bundle = ResourceBundle::zero();
        if (node as usize) < self.map.adjacent_tiles.len() {
            let ids = &self.map.adjacent_tiles[node as usize];
            let mut k: usize = 0;
            while k < ids.len()
                invariant
                    0 <= k <= ids@.len(),
                    (node as int) < self.map.adjacent_tiles@.len(),
                    ids == self.map.adjacent_tiles@[node as int],
                    forall|i: int| 0 <= i < 5 ==> #[trigger] bundle.at(i) == {
                        let c = self.map.producing_count(ids@.subrange(0, k as int), i);
                        if c > 255 { 255 } else { c }
                    },
                decreases ids@.len() - k,
            {
                assert(ids@.subrange(0, k + 1).drop_last() =~= ids@.subrange(0, k as int));
                assert(ids@.subrange(0, k + 1).last() == ids@[k as int]);
                let ghost prev = bundle;
                let found = self.tile_resource(ids[k]);
                match found {
                    Some(r) => bundle.add(r, 1),
                    None => {},
                }
                proof {
                    assert forall|i: int| 0 <= i < 5 implies #[trigger] bundle.at(i) == {
                        let c = self.map.producing_count(ids@.subrange(0, k + 1), i);
                        if c > 255 { 255 } else { c }
                    } by {
                        let c0 = self.map.producing_count(ids@.subrange(0, k as int), i);
                        assert(prev.at(i) == if c0 > 255 { 255 } else { c0 });
                        match found {
                            Some(r) => {
                                if crate::types::spec_resource_index(r) == i {
                                    assert(bundle.counts@[i] == crate::resources::sat_add(prev.counts@[i], 1));
                                } else {
                                    assert(bundle.counts@[i] == prev.counts@[i]);
                                }
                            },
                            None => {},
                        }
                    }
                }
                k = k + 1;
            }
            assert(ids@.subrange(0, k as int) =~= ids@);
        }
        assert(forall|i: int| 0 <= i < 5 ==> #[trigger] bundle.at(i) == self.map.starting_award(node, i));
        if !bundle.is_empty() && self.bank.resources.can_afford(&bundle) {
            let ghost pre = *self;
            self.bank_to_player(p, &bundle);
            assert forall|q: int| 0 <= q < pre.players@.len() implies #[trigger] self.players@[q].dev_cards == pre.players@[q].dev_cards by {
                if q != p as int {
                    assert(self.players@[q] == pre.players@[q]);
                }
            }
            events.push(GameEvent::ResourcesDistributed { player: p, bundle });
        }
    }
}

} // verus!
