use vstd::prelude::*;

use rand::rngs::StdRng;

use crate::action::GameAction;
use crate::bank::Bank;
use crate::board::{CatanMap, EdgeId, NodeId};
use crate::players::PlayerState;
use crate::resources::ResourceBundle;
use crate::setup::SetupState;
use crate::types::{ActionPrompt, ActionType};

verus! {

/// Supply of each resource kind in a game; what the bank and the players hold adds up to it.
pub const SUPPLY_PER_RESOURCE: u8 = 19;

#[derive(Debug, Clone, Copy, PartialEq, Eq)]
pub enum MapType {
    Base,
    Tournament,
    Mini,
}

#[derive(Debug, Clone, Copy, PartialEq, Eq)]
pub struct GameConfig {
    pub num_players: usize,
    pub map_type: MapType,
    pub vps_to_win: u8,
    pub seed: u64,
}

impl Default for GameConfig {
    fn default() -> (c: GameConfig)
        ensures
            c == (GameConfig { num_players: 4, map_type: MapType::Base, vps_to_win: 10, seed: 42 }),
    {
        GameConfig { num_players: 4, map_type: MapType::Base, vps_to_win: 10, seed: 42 }
    }
}

#[derive(Debug, Clone, Copy, PartialEq, Eq)]
pub enum GamePhase {
    Setup(SetupState),
    Playing,
    Completed { winner: Option<usize> },
}

/// Position of a phase in the order Setup, Playing, Completed.
pub open spec fn phase_rank(p: GamePhase) -> int {
    match p {
        GamePhase::Setup(_) => 0,
        GamePhase::Playing => 1,
        GamePhase::Completed { .. } => 2,
    }
}

#[derive(Debug, Clone, Copy, PartialEq, Eq)]
pub enum Structure {
    Settlement { player: usize },
    City { player: usize },
}

pub open spec fn structure_owner(s: Structure) -> usize {
    match s {
        Structure::Settlement { player } => player,
        Structure::City { player } => player,
    }
}

#[derive(Debug, Clone, Copy, PartialEq, Eq)]
pub enum GameEvent {
    DiceRolled { player: usize, dice: (u8, u8), sum: u8 },
    ResourcesDistributed { player: usize, bundle: ResourceBundle },
    BuiltRoad { player: usize, edge: EdgeId },
    BuiltSettlement { player: usize, node: NodeId },
    BuiltCity { player: usize, node: NodeId },
    TurnAdvanced { next_player: usize },
    GameWon { winner: usize },
}

/// What one accepted step produced. A reward is +1 for the winner, -1 for every other
/// player once the game is won, and 0 before.
#[derive(Debug, Clone)]
pub struct StepOutcome {
    pub events: Vec<GameEvent>,
    pub rewards: Vec<i8>,
    pub done: bool,
}

#[derive(Debug, Clone, Copy, PartialEq, Eq)]
pub enum GameError {
    GameFinished,
    InvalidPlayer(usize),
    ActionOutOfTurn { expected: usize, actual: usize },
    InvalidPrompt { prompt: ActionPrompt, action: ActionType },
    InvalidPayload,
    NodeOccupied(NodeId),
    DistanceRuleViolation,
    MustConnectToNetwork,
    EdgeNotFound,
    EdgeOccupied,
    InsufficientResources,
    BankOutOfResources,
    IllegalAction,
}

/// A domestic trade in negotiation.
#[derive(Debug, Clone)]
pub struct TradeState {
    pub offerer: usize,
    pub give: ResourceBundle,
    pub receive: ResourceBundle,
    pub acceptees: Vec<usize>,
}

/// Sum over the players of their counter `i`.
pub open spec fn player_sum(ps: Seq<PlayerState>, i: int) -> int
    decreases ps.len(),
{
    if ps.len() == 0 {
        0
    } else {
        player_sum(ps.drop_last(), i) + ps.last().resources.at(i)
    }
}

pub proof fn lemma_player_sum_update(ps: Seq<PlayerState>, p: int, q: PlayerState, i: int)
    requires
        0 <= p < ps.len(),
    ensures
        player_sum(ps.update(p, q), i) == player_sum(ps, i) - ps[p].resources.at(i) + q.resources.at(i),
    decreases ps.len(),
{
    if p == ps.len() - 1 {
        assert(ps.update(p, q).drop_last() =~= ps.drop_last());
    } else {
        lemma_player_sum_update(ps.drop_last(), p, q, i);
        assert(ps.update(p, q).drop_last() =~= ps.drop_last().update(p, q));
    }
}

/// Occupancy consistency and the distance rule depend only on the buildings.
pub proof fn lemma_buildings_unchanged(o: GameState, s: GameState)
    requires
        o.occupancy_consistent(),
        o.distance_rule(),
        s.map == o.map,
        s.node_occupancy == o.node_occupancy,
        s.road_occupancy == o.road_occupancy,
        s.players@.len() == o.players@.len(),
        forall|q: int| 0 <= q < o.players@.len() ==> {
            &&& (#[trigger] s.players@[q]).settlements == o.players@[q].settlements
            &&& s.players@[q].cities == o.players@[q].cities
            &&& s.players@[q].roads == o.players@[q].roads
        },
    ensures
        s.occupancy_consistent(),
        s.distance_rule(),
{
    assert forall|p: int, n: NodeId| 0 <= p < s.num_players() implies
        (#[trigger] s.players@[p].settlements@.contains(n) <==> ((n as int) < s.node_occupancy@.len()
            && s.node_occupancy@[n as int] == Some(Structure::Settlement { player: p as usize }))) by {
        assert(o.players@[p].settlements@.contains(n) == s.players@[p].settlements@.contains(n));
    }
    assert forall|p: int, n: NodeId| 0 <= p < s.num_players() implies
        (#[trigger] s.players@[p].cities@.contains(n) <==> ((n as int) < s.node_occupancy@.len()
            && s.node_occupancy@[n as int] == Some(Structure::City { player: p as usize }))) by {
        assert(o.players@[p].cities@.contains(n) == s.players@[p].cities@.contains(n));
    }
    assert forall|p: int, e: EdgeId| 0 <= p < s.num_players() implies
        (#[trigger] s.players@[p].roads@.contains(e) <==> s.road_occupancy@.contains((e, p as usize))) by {
        assert(o.players@[p].roads@.contains(e) == s.players@[p].roads@.contains(e));
    }
    assert forall|a: int, b: int| #[trigger] s.map.adjacent(a, b) && s.occupied(a) implies !s.occupied(b) by {
        assert(o.map.adjacent(a, b));
    }
}

/// Sums only depend on the players' hands.
pub proof fn lemma_player_sum_resources_eq(a: Seq<PlayerState>, b: Seq<PlayerState>, i: int)
    requires
        a.len() == b.len(),
        forall|q: int| 0 <= q < a.len() ==> #[trigger] a[q].resources == b[q].resources,
    ensures
        player_sum(a, i) == player_sum(b, i),
    decreases a.len(),
{
    if a.len() > 0 {
        lemma_player_sum_resources_eq(a.drop_last(), b.drop_last(), i);
    }
}

pub proof fn lemma_player_sum_bound(ps: Seq<PlayerState>, p: int, i: int)
    requires
        0 <= p < ps.len(),
        0 <= i < 5,
    ensures
        ps[p].resources.at(i) <= player_sum(ps, i),
    decreases ps.len(),
{
    lemma_player_sum_nonneg(ps.drop_last(), i);
    if p < ps.len() - 1 {
        lemma_player_sum_bound(ps.drop_last(), p, i);
    }
}

/// Two different players together hold at most the sum.
pub proof fn lemma_player_sum_pair(ps: Seq<PlayerState>, p: int, q: int, i: int)
    requires
        0 <= p < ps.len(),
        0 <= q < ps.len(),
        p != q,
        0 <= i < 5,
    ensures
        ps[p].resources.at(i) + ps[q].resources.at(i) <= player_sum(ps, i),
    decreases ps.len(),
{
    let last = ps.len() - 1;
    if p == last {
        lemma_player_sum_bound(ps.drop_last(), q, i);
    } else if q == last {
        lemma_player_sum_bound(ps.drop_last(), p, i);
    } else {
        lemma_player_sum_pair(ps.drop_last(), p, q, i);
    }
}

pub proof fn lemma_player_sum_nonneg(ps: Seq<PlayerState>, i: int)
    requires
        0 <= i < 5,
    ensures
        player_sum(ps, i) >= 0,
    decreases ps.len(),
{
    if ps.len() > 0 {
        lemma_player_sum_nonneg(ps.drop_last(), i);
    }
}

/// The whole engine state; every change goes through `step`.
#[derive(Debug, Clone)]
pub struct GameState {
    pub config: GameConfig,
    pub map: CatanMap,
    pub players: Vec<PlayerState>,
    pub bank: Bank,
    pub phase: GamePhase,
    pub pending_prompt: ActionPrompt,
    pub current_player: usize,
    pub turn_owner: usize,
    pub turn: u32,
    pub robber_tile: u16,
    pub last_roll: Option<(u8, u8)>,
    /// For each node id, the building on it.
    pub node_occupancy: Vec<Option<Structure>>,
    /// Each built road with its owner; an edge appears at most once.
    pub road_occupancy: Vec<(EdgeId, usize)>,
    pub actions: Vec<GameAction>,
    pub available_actions: Vec<GameAction>,
    pub awaiting_roll: bool,
    pub discard_queue: Vec<usize>,
    /// For each player, the cards still to discard.
    pub discard_targets: Vec<u8>,
    pub road_building_player: Option<usize>,
    pub road_building_free_roads: u8,
    pub trade_state: Option<TradeState>,
    pub trade_queue: Vec<usize>,
    /// For each player in the opening, the settlement its next road must touch.
    pub setup_pending_roads: Vec<Option<NodeId>>,
    pub rng: StdRng,
}

impl GameState {
    pub open spec fn num_players(&self) -> int {
        self.players@.len() as int
    }

    pub open spec fn occupied(&self, n: int) -> bool {
        self.node_occupancy@[n].is_some()
    }

    /// Every resource card is either in the bank or in a hand.
    pub open spec fn conserved(&self) -> bool {
        forall|i: int| 0 <= i < 5 ==> #[trigger] self.bank.resources.at(i) + player_sum(self.players@, i) == SUPPLY_PER_RESOURCE as int
    }

    /// The node and road records agree with the players' own building lists.
    pub open spec fn occupancy_consistent(&self) -> bool {
        &&& self.node_occupancy@.len() == self.map.num_nodes()
        &&& forall|n: int| 0 <= n < self.node_occupancy@.len() && #[trigger] self.node_occupancy@[n].is_some()
            ==> structure_owner(self.node_occupancy@[n].unwrap()) < self.num_players()
        &&& forall|p: int, n: NodeId| 0 <= p < self.num_players() ==>
            (#[trigger] self.players@[p].settlements@.contains(n) <==> ((n as int) < self.node_occupancy@.len()
                && self.node_occupancy@[n as int] == Some(Structure::Settlement { player: p as usize })))
        &&& forall|p: int, n: NodeId| 0 <= p < self.num_players() ==>
            (#[trigger] self.players@[p].cities@.contains(n) <==> ((n as int) < self.node_occupancy@.len()
                && self.node_occupancy@[n as int] == Some(Structure::City { player: p as usize })))
        &&& forall|k: int| 0 <= k < self.road_occupancy@.len() ==> (#[trigger] self.road_occupancy@[k]).1 < self.num_players()
        &&& forall|k1: int, k2: int| 0 <= k1 < self.road_occupancy@.len() && 0 <= k2 < self.road_occupancy@.len() && k1 != k2
            ==> #[trigger] self.road_occupancy@[k1].0 != #[trigger] self.road_occupancy@[k2].0
        &&& forall|p: int, e: EdgeId| 0 <= p < self.num_players() ==>
            (#[trigger] self.players@[p].roads@.contains(e) <==> self.road_occupancy@.contains((e, p as usize)))
    }

    /// No two occupied nodes are neighbours.
    pub open spec fn distance_rule(&self) -> bool {
        forall|a: int, b: int| #[trigger] self.map.adjacent(a, b) && self.occupied(a) ==> !self.occupied(b)
    }

    pub open spec fn queues_ok(&self) -> bool {
        &&& self.discard_targets@.len() == self.num_players()
        &&& self.setup_pending_roads@.len() == self.num_players()
        &&& forall|k: int| 0 <= k < self.discard_queue@.len() ==> #[trigger] self.discard_queue@[k] < self.num_players()
        &&& forall|k: int| 0 <= k < self.trade_queue@.len() ==> #[trigger] self.trade_queue@[k] < self.num_players()
        &&& self.trade_state.is_some() ==> self.trade_state.unwrap().offerer < self.num_players()
        &&& self.trade_state.is_some() ==> forall|k: int| 0 <= k < self.trade_state.unwrap().acceptees@.len()
            ==> #[trigger] self.trade_state.unwrap().acceptees@[k] < self.num_players()
        &&& self.road_building_player.is_some() ==> self.road_building_player.unwrap() < self.num_players()
    }

    pub open spec fn wf(&self) -> bool {
        &&& self.map.wf()
        &&& 2 <= self.num_players() <= 4
        &&& self.config.num_players == self.num_players()
        &&& self.current_player < self.num_players()
        &&& self.turn_owner < self.num_players()
        &&& forall|p: int| 0 <= p < self.num_players() ==> (#[trigger] self.players@[p]).wf()
        &&& self.conserved()
        &&& self.occupancy_consistent()
        &&& self.distance_rule()
        &&& self.queues_ok()
        &&& (self.phase matches GamePhase::Setup(s) ==> s.wf() && s.num_players == self.num_players())
    }
}

} // verus!
