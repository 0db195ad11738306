use vstd::prelude::*;

use rand::rngs::StdRng;

use crate::bank::Bank;
use crate::board::{CatanMap, NodeId};
use crate::chance::seeded_rng;
use crate::players::PlayerState;
use crate::setup::SetupState;
use crate::state::{player_sum, GameConfig, GamePhase, GameState, Structure};
use crate::types::{color_at, ActionPrompt};

verus! {

proof fn lemma_player_sum_zero(ps: Seq<PlayerState>, i: int)
    requires
        forall|q: int| 0 <= q < ps.len() ==> (#[trigger] ps[q]).resources.is_zero(),
        0 <= i < 5,
    ensures
        player_sum(ps, i) == 0,
    decreases ps.len(),
{
    if ps.len() > 0 {
        lemma_player_sum_zero(ps.drop_last(), i);
        assert(ps.last().resources.is_zero());
    }
}

/// The id of the first desert among `tiles` (0 when there is none).
pub open spec fn desert_id(tiles: Seq<crate::board::LandTile>) -> u16
    decreases tiles.len(),
{
    if tiles.len() == 0 {
        0
    } else if tiles[0].resource.is_none() {
        tiles[0].id
    } else {
        desert_id(tiles.drop_first())
    }
}

fn desert_tile(map: &CatanMap) -> (id: u16)
    ensures
        id == desert_id(map.land_tiles@),
{
    let tiles = &map.land_tiles;
    let mut t: usize = 0;
    assert(tiles@.subrange(0, tiles@.len() as int) =~= tiles@);
    while t < tiles.len()
        invariant
            0 <= t <= tiles@.len(),
            tiles@ == map.land_tiles@,
            desert_id(tiles@.subrange(t as int, tiles@.len() as int)) == desert_id(tiles@),
        decreases tiles@.len() - t,
    {
        let ghost rest = tiles@.subrange(t as int, tiles@.len() as int);
        assert(rest.drop_first() =~= tiles@.subrange(t + 1, tiles@.len() as int));
        assert(rest[0] == tiles@[t as int]);
        if tiles[t].resource.is_none() {
            return tiles[t].id;
        }
        t = t + 1;
    }
    assert(tiles@.subrange(t as int, tiles@.len() as int).len() == 0);
    0
}

impl GameState {
    /// The state of a game that has just been set up: seats in palette order with
    /// empty hands and no buildings, a full bank and deck, nothing built or logged,
    /// no roll yet, and the robber on the desert.
    pub open spec fn fresh(&self) -> bool {
        &&& forall|q: int| 0 <= q < self.players@.len() ==> {
            let pl = #[trigger] self.players@[q];
            &&& pl.color == crate::types::spec_color_at(q)
            &&& pl.resources.is_zero()
            &&& pl.dev_cards@.len() == 0 && pl.fresh_dev_cards@.len() == 0
            &&& pl.settlements@.len() == 0 && pl.cities@.len() == 0 && pl.roads@.len() == 0
            &&& pl.victory_points == 0 && pl.knights_played == 0
            &&& !pl.has_longest_road && !pl.has_largest_army
        }
        &&& forall|i: int| 0 <= i < 5 ==> #[trigger] self.bank.resources.at(i) == crate::bank::BANK_SUPPLY
        &&& self.bank.development_deck@.len() == 25
        &&& forall|c: crate::types::DevelopmentCard| #[trigger] crate::bank::card_count(self.bank.development_deck@, c)
            == crate::bank::standard_card_count(c)
        &&& self.turn == 0
        &&& self.last_roll.is_none()
        &&& forall|n: int| 0 <= n < self.node_occupancy@.len() ==> (#[trigger] self.node_occupancy@[n]).is_none()
        &&& self.road_occupancy@.len() == 0
        &&& self.actions@.len() == 0
        &&& self.robber_tile == desert_id(self.map.land_tiles@)
    }

    /// A new game on the given board: players seated in palette order, a full bank
    /// with a deck shuffled from the seed, and the opening script about to start.
    pub fn with_map(config: GameConfig, map: CatanMap) -> (s: GameState)
        requires
            2 <= config.num_players <= 4,
            map.wf(),
        ensures
            s.valid(),
            s.config == config,
            s.map == map,
            s.phase == GamePhase::Setup(SetupState { num_players: config.num_players, cursor: 0 }),
            s.current_player == 0,
            s.pending_prompt == ActionPrompt::BuildInitialSettlement,
            s.fresh(),
    {
        let rng = seeded_rng(config.seed);
        GameState::assemble(config, map, rng)
    }

    /// A new game on a board of the configured kind, dealt from the seed.
    pub fn new(config: GameConfig) -> (s: GameState)
        requires
            2 <= config.num_players <= 4,
        ensures
            s.valid(),
            s.config == config,
            s.phase == GamePhase::Setup(SetupState { num_players: config.num_players, cursor: 0 }),
            s.current_player == 0,
            s.pending_prompt == ActionPrompt::BuildInitialSettlement,
            s.fresh(),
    {
        let mut rng = seeded_rng(config.seed);
        let map = CatanMap::build_with_rng(config.map_type, &mut rng);
        GameState::assemble(config, map, rng)
    }

    /// Starts the same game again from its configuration.
    pub fn reset(&mut self)
        requires
            2 <= old(self).config.num_players <= 4,
        ensures
            final(self).valid(),
            final(self).config == old(self).config,
            final(self).fresh(),
    {
        *self = GameState::new(self.config);
    }

    fn assemble(config: GameConfig, map: CatanMap, rng: StdRng) -> (s: GameState)
        requires
            2 <= config.num_players <= 4,
            map.wf(),
        ensures
            s.valid(),
            s.config == config,
            s.map == map,
            s.phase == GamePhase::Setup(SetupState { num_players: config.num_players, cursor: 0 }),
            s.current_player == 0,
            s.pending_prompt == ActionPrompt::BuildInitialSettlement,
            s.fresh(),
    {
        let mut rng = rng;
        let n = config.num_players;
        let robber_tile = desert_tile(&map);
        let mut players: Vec<PlayerState> = Vec::new();
        let mut discard_targets: Vec<u8> = Vec::new();
        let mut setup_pending_roads: Vec<Option<NodeId>> = Vec::new();
        let mut q: usize = 0;
        while q < n
            invariant
                2 <= n <= 4,
                0 <= q <= n,
                players@.len() == q,
                discard_targets@.len() == q,
                setup_pending_roads@.len() == q,
                forall|j: int| 0 <= j < q ==> (#[trigger] players@[j]).wf() && players@[j].resources.is_zero()
                    && players@[j].color == crate::types::spec_color_at(j) && players@[j].dev_cards@.len() == 0
                    && players@[j].fresh_dev_cards@.len() == 0 && players@[j].victory_points == 0 && players@[j].knights_played == 0
                    && !players@[j].has_longest_road && !players@[j].has_largest_army
                    && players@[j].settlements@.len() == 0 && players@[j].cities@.len() == 0 && players@[j].roads@.len() == 0,
            decreases n - q,
        {
            players.push(PlayerState::new(color_at(q)));
            discard_targets.push(0);
            setup_pending_roads.push(None);
            q = q + 1;
        }
        let bank = Bank::standard(&mut rng);
        let mut node_occupancy: Vec<Option<Structure>> = Vec::new();
        let num_nodes = map.node_neighbors.len();
        let mut k: usize = 0;
        while k < num_nodes
            invariant
                0 <= k <= num_nodes,
                node_occupancy@.len() == k,
                forall|j: int| 0 <= j < k ==> (#[trigger] node_occupancy@[j]).is_none(),
            decreases num_nodes - k,
        {
            node_occupancy.push(None);
            k = k + 1;
        }
        let setup = SetupState::new(n);
        let mut s = GameState {
            config,
            map,
            players,
            bank,
            phase: GamePhase::Setup(setup),
            pending_prompt: ActionPrompt::BuildInitialSettlement,
            current_player: 0,
            turn_owner: 0,
            turn: 0,
            robber_tile,
            last_roll: None,
            node_occupancy,
            road_occupancy: Vec::new(),
            actions: Vec::new(),
            available_actions: Vec::new(),
            awaiting_roll: false,
            discard_queue: Vec::new(),
            discard_targets,
            road_building_player: None,
            road_building_free_roads: 0,
            trade_state: None,
            trade_queue: Vec::new(),
            setup_pending_roads,
            rng,
        };
        proof {
            assert forall|i: int| 0 <= i < 5 implies #[trigger] s.bank.resources.at(i) + player_sum(s.players@, i) == crate::state::SUPPLY_PER_RESOURCE as int by {
                lemma_player_sum_zero(s.players@, i);
            }
            assert forall|p: int, m: NodeId| 0 <= p < s.num_players() implies
                (#[trigger] s.players@[p].settlements@.contains(m) <==> ((m as int) < s.node_occupancy@.len()
                    && s.node_occupancy@[m as int] == Some(Structure::Settlement { player: p as usize }))) by {
                if (m as int) < s.node_occupancy@.len() {
                    assert(s.node_occupancy@[m as int].is_none());
                }
            }
            assert forall|p: int, m: NodeId| 0 <= p < s.num_players() implies
                (#[trigger] s.players@[p].cities@.contains(m) <==> ((m as int) < s.node_occupancy@.len()
                    && s.node_occupancy@[m as int] == Some(Structure::City { player: p as usize }))) by {
                if (m as int) < s.node_occupancy@.len() {
                    assert(s.node_occupancy@[m as int].is_none());
                }
            }
        }
        s.refresh_available_actions();
        s
    }
}

} // verus!
