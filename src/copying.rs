use vstd::prelude::*;

use crate::bank::Bank;
use crate::board::{CatanMap, NodeId};
use crate::game::Game;
use crate::players::PlayerState;
use crate::state::{GameState, TradeState};

verus! {

/// A new vector holding the same elements.
pub fn copy_vec<T: Copy>(v: &Vec<T>) -> (r: Vec<T>)
    ensures
        r@ == v@,
{
    let mut r: Vec<T> = Vec::new();
    let mut i: usize = 0;
    while i < v.len()
        invariant
            0 <= i <= v@.len(),
            r@ == v@.subrange(0, i as int),
        decreases v@.len() - i,
    {
        r.push(v[i]);
        assert(r@ =~= v@.subrange(0, i + 1));
        i = i + 1;
    }
    assert(v@.subrange(0, i as int) =~= v@);
    r
}

/// Equal views of two vectors of vectors, entry by entry.
pub open spec fn same_nested(a: Seq<Vec<NodeId>>, b: Seq<Vec<NodeId>>) -> bool {
    a.len() == b.len() && forall|i: int| 0 <= i < a.len() ==> (#[trigger] a[i])@ == b[i]@
}

fn copy_nested(v: &Vec<Vec<NodeId>>) -> (r: Vec<Vec<NodeId>>)
    ensures
        same_nested(r@, v@),
{
    let mut r: Vec<Vec<NodeId>> = Vec::new();
    let mut i: usize = 0;
    while i < v.len()
        invariant
            0 <= i <= v@.len(),
            r@.len() == i,
            forall|j: int| 0 <= j < i ==> (#[trigger] r@[j])@ == v@[j]@,
        decreases v@.len() - i,
    {
        r.push(copy_vec(&v[i]));
        i = i + 1;
    }
    r
}

impl PlayerState {
    /// Holds exactly what `o` holds.
    pub open spec fn same_as(&self, o: &PlayerState) -> bool {
        &&& self.color == o.color
        &&& self.resources == o.resources
        &&& self.dev_cards@ == o.dev_cards@
        &&& self.fresh_dev_cards@ == o.fresh_dev_cards@
        &&& self.roads@ == o.roads@
        &&& self.settlements@ == o.settlements@
        &&& self.cities@ == o.cities@
        &&& self.victory_points == o.victory_points
        &&& self.knights_played == o.knights_played
        &&& self.has_longest_road == o.has_longest_road
        &&& self.has_largest_army == o.has_largest_army
        &&& self.has_rolled == o.has_rolled
        &&& self.has_played_dev_card_this_turn == o.has_played_dev_card_this_turn
        &&& self.played_dev_cards == o.played_dev_cards
    }

    pub fn copy(&self) -> (c: PlayerState)
        ensures
            c.same_as(self),
    {
        PlayerState {
            color: self.color,
            resources: self.resources,
            dev_cards: copy_vec(&self.dev_cards),
            fresh_dev_cards: copy_vec(&self.fresh_dev_cards),
            roads: copy_vec(&self.roads),
            settlements: copy_vec(&self.settlements),
            cities: copy_vec(&self.cities),
            victory_points: self.victory_points,
            knights_played: self.knights_played,
            has_longest_road: self.has_longest_road,
            has_largest_army: self.has_largest_army,
            has_rolled: self.has_rolled,
            has_played_dev_card_this_turn: self.has_played_dev_card_this_turn,
            played_dev_cards: self.played_dev_cards,
        }
    }
}

impl CatanMap {
    /// The same board as `o`.
    pub open spec fn same_as(&self, o: &CatanMap) -> bool {
        &&& self.land_tiles@ == o.land_tiles@
        &&& self.ports@ == o.ports@
        &&& self.land_nodes@ == o.land_nodes@
        &&& same_nested(self.node_neighbors@, o.node_neighbors@)
        &&& self.adjacent_tiles@.len() == o.adjacent_tiles@.len()
        &&& forall|i: int| 0 <= i < self.adjacent_tiles@.len() ==> (#[trigger] self.adjacent_tiles@[i])@ == o.adjacent_tiles@[i]@
        &&& self.edges@ == o.edges@
        &&& self.port_nodes@ == o.port_nodes@
    }

    pub fn copy(&self) -> (c: CatanMap)
        ensures
            c.same_as(self),
    {
        let mut adjacent: Vec<Vec<u16>> = Vec::new();
        let mut i: usize = 0;
        while i < self.adjacent_tiles.len()
            invariant
                0 <= i <= self.adjacent_tiles@.len(),
                adjacent@.len() == i,
                forall|j: int| 0 <= j < i ==> (#[trigger] adjacent@[j])@ == self.adjacent_tiles@[j]@,
            decreases self.adjacent_tiles@.len() - i,
        {
            adjacent.push(copy_vec(&self.adjacent_tiles[i]));
            i = i + 1;
        }
        CatanMap {
            land_tiles: copy_vec(&self.land_tiles),
            ports: copy_vec(&self.ports),
            land_nodes: copy_vec(&self.land_nodes),
            node_neighbors: copy_nested(&self.node_neighbors),
            adjacent_tiles: adjacent,
            edges: copy_vec(&self.edges),
            port_nodes: copy_vec(&self.port_nodes),
        }
    }
}

/// The same negotiation.
pub open spec fn same_trade(a: Option<TradeState>, b: Option<TradeState>) -> bool {
    match (a, b) {
        (None, None) => true,
        (Some(x), Some(y)) => x.offerer == y.offerer && x.give == y.give && x.receive == y.receive && x.acceptees@ == y.acceptees@,
        _ => false,
    }
}

impl GameState {
    /// Holds the same game as `o`, value for value.
    pub open spec fn same_as(&self, o: &GameState) -> bool {
        &&& self.config == o.config
        &&& self.map.same_as(&o.map)
        &&& self.players@.len() == o.players@.len()
        &&& forall|q: int| 0 <= q < self.players@.len() ==> (#[trigger] self.players@[q]).same_as(&o.players@[q])
        &&& self.bank.resources == o.bank.resources
        &&& self.bank.development_deck@ == o.bank.development_deck@
        &&& self.phase == o.phase
        &&& self.pending_prompt == o.pending_prompt
        &&& self.current_player == o.current_player
        &&& self.turn_owner == o.turn_owner
        &&& self.turn == o.turn
        &&& self.robber_tile == o.robber_tile
        &&& self.last_roll == o.last_roll
        &&& self.node_occupancy@ == o.node_occupancy@
        &&& self.road_occupancy@ == o.road_occupancy@
        &&& self.actions@ == o.actions@
        &&& self.available_actions@ == o.available_actions@
        &&& self.awaiting_roll == o.awaiting_roll
        &&& self.discard_queue@ == o.discard_queue@
        &&& self.discard_targets@ == o.discard_targets@
        &&& self.road_building_player == o.road_building_player
        &&& self.road_building_free_roads == o.road_building_free_roads
        &&& same_trade(self.trade_state, o.trade_state)
        &&& self.trade_queue@ == o.trade_queue@
        &&& self.setup_pending_roads@ == o.setup_pending_roads@
        &&& self.rng == o.rng
    }

    /// An independent copy of the whole state.
    pub fn copy(&self) -> (c: GameState)
        ensures
            c.same_as(self),
    {
        let mut players: Vec<PlayerState> = Vec::new();
        let mut q: usize = 0;
        while q < self.players.len()
            invariant
                0 <= q <= self.players@.len(),
                players@.len() == q,
                forall|j: int| 0 <= j < q ==> (#[trigger] players@[j]).same_as(&self.players@[j]),
            decreases self.players@.len() - q,
        {
            players.push(self.players[q].copy());
            q = q + 1;
        }
        let trade_state = match &self.trade_state {
            Some(t) => Some(TradeState { offerer: t.offerer, give: t.give, receive: t.receive, acceptees: copy_vec(&t.acceptees) }),
            None => None,
        };
        GameState {
            config: self.config,
            map: self.map.copy(),
            players,
            bank: Bank { resources: self.bank.resources, development_deck: copy_vec(&self.bank.development_deck) },
            phase: self.phase,
            pending_prompt: self.pending_prompt,
            current_player: self.current_player,
            turn_owner: self.turn_owner,
            turn: self.turn,
            robber_tile: self.robber_tile,
            last_roll: self.last_roll,
            node_occupancy: copy_vec(&self.node_occupancy),
            road_occupancy: copy_vec(&self.road_occupancy),
            actions: copy_vec(&self.actions),
            available_actions: copy_vec(&self.available_actions),
            awaiting_roll: self.awaiting_roll,
            discard_queue: copy_vec(&self.discard_queue),
            discard_targets: copy_vec(&self.discard_targets),
            road_building_player: self.road_building_player,
            road_building_free_roads: self.road_building_free_roads,
            trade_state,
            trade_queue: copy_vec(&self.trade_queue),
            setup_pending_roads: copy_vec(&self.setup_pending_roads),
            rng: self.rng.clone(),
        }
    }
}

impl Game {
    /// An independent copy of the whole session: same identity, target and state.
    pub fn copy(&self) -> (c: Game)
        ensures
            c.seed == self.seed,
            c.id == self.id,
            c.vps_to_win == self.vps_to_win,
            c.state.same_as(&self.state),
    {
        Game { seed: self.seed, id: self.id.clone(), vps_to_win: self.vps_to_win, state: self.state.copy() }
    }
}

} // verus!
