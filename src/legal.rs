use vstd::prelude::*;

use crate::action::{ActionPayload, GameAction};
use crate::board::NodeId;
use crate::bank::{card_count, development_price};
use crate::engine::single_bundle;
use crate::players::MAX_CITIES;
use crate::resources::{
    city_price,
    cost_city,
    cost_development,
    cost_road,
    cost_settlement,
    road_price,
    settlement_price,
};
use crate::state::{GamePhase, GameState};
use crate::trading::lemma_single_kind;
use crate::types::{resource_at, spec_resource_index, ActionPrompt, ActionType, DevelopmentCard, Resource};

verus! {

broadcast use vstd::seq_lib::group_seq_properties;

/// Playing monopoly on `r` by player `p`.
pub open spec fn monopoly_action(p: usize, r: Resource) -> GameAction {
    GameAction { player_index: p, action_type: ActionType::PlayMonopoly, payload: ActionPayload::Resource(r) }
}

/// Every action is one the turn handler takes.
pub open spec fn all_accepted(s: &GameState, acts: Seq<GameAction>) -> bool {
    forall|k: int| 0 <= k < acts.len() ==> s.accepts_turn_action(#[trigger] acts[k])
}

proof fn lemma_all_accepted_append(s: &GameState, a: Seq<GameAction>, b: Seq<GameAction>)
    requires
        all_accepted(s, a),
        all_accepted(s, b),
    ensures
        all_accepted(s, a + b),
{
    assert forall|k: int| 0 <= k < (a + b).len() implies s.accepts_turn_action(#[trigger] (a + b)[k]) by {
        if k < a.len() {
            assert((a + b)[k] == a[k]);
        } else {
            assert((a + b)[k] == b[k - a.len()]);
        }
    }
}

/// Every action is made by player `p`.
pub open spec fn all_by(acts: Seq<GameAction>, p: usize) -> bool {
    forall|k: int| 0 <= k < acts.len() ==> (#[trigger] acts[k]).player_index == p
}

proof fn lemma_all_by_append(a: Seq<GameAction>, b: Seq<GameAction>, p: usize)
    requires
        all_by(a, p),
        all_by(b, p),
    ensures
        all_by(a + b, p),
{
    assert forall|k: int| 0 <= k < (a + b).len() implies (#[trigger] (a + b)[k]).player_index == p by {
        if k < a.len() {
            assert((a + b)[k] == a[k]);
        } else {
            assert((a + b)[k] == b[k - a.len()]);
        }
    }
}

fn append_all(acts: &mut Vec<GameAction>, more: Vec<GameAction>, Ghost(p): Ghost<usize>)
    requires
        all_by(old(acts)@, p),
        all_by(more@, p),
    ensures
        all_by(final(acts)@, p),
        final(acts)@ == old(acts)@ + more@,
{
    let mut more = more;
    proof {
        lemma_all_by_append(acts@, more@, p);
    }
    acts.append(&mut more);
}

fn contains_index(v: &Vec<usize>, x: usize) -> (b: bool)
    ensures
        b == v@.contains(x),
{
    let mut i: usize = 0;
    while i < v.len()
        invariant
            0 <= i <= v@.len(),
            forall|j: int| 0 <= j < i ==> v@[j] != x,
        decreases v@.len() - i,
    {
        if v[i] == x {
            return true;
        }
        i = i + 1;
    }
    false
}

impl GameState {
    /// `a` is a move of a regular turn that the turn handler takes from its player.
    pub open spec fn accepts_turn_action(&self, a: GameAction) -> bool {
        let p = a.player_index as int;
        let pl = self.players@[p];
        let free = self.road_building_player == Some(a.player_index) && self.road_building_free_roads > 0;
        match a.action_type {
            ActionType::Roll => self.awaiting_roll,
            ActionType::EndTurn => !self.awaiting_roll,
            ActionType::BuildRoad => (free || !self.awaiting_roll)
                && (a.payload matches ActionPayload::Edge(e) && self.road_site_ok(p, e, true))
                && (free || pl.resources.covers_counts(road_price())),
            ActionType::BuildSettlement => !self.awaiting_roll
                && (a.payload matches ActionPayload::Node(n) && self.settlement_site_ok(p, n, true))
                && pl.resources.covers_counts(settlement_price()),
            ActionType::BuildCity => !self.awaiting_roll
                && (a.payload matches ActionPayload::Node(n) && pl.settlements@.contains(n))
                && pl.cities@.len() < MAX_CITIES
                && pl.resources.covers_counts(city_price()),
            ActionType::BuyDevelopmentCard => a.payload == ActionPayload::Empty && !self.awaiting_roll
                && self.bank.development_deck@.len() > 0 && pl.resources.covers_counts(development_price()),
            ActionType::MaritimeTrade => !self.awaiting_roll
                && (a.payload matches ActionPayload::MaritimeTrade { give, receive } && self.maritime_ok(p, give, receive)),
            ActionType::PlayKnightCard => !pl.has_played_dev_card_this_turn
                && card_count(pl.dev_cards@, DevelopmentCard::Knight) > 0,
            ActionType::PlayYearOfPlenty => (a.payload matches ActionPayload::Resources(b) && 1 <= b.spec_total() <= 2
                && self.bank.resources.covers(b))
                && !pl.has_played_dev_card_this_turn && card_count(pl.dev_cards@, DevelopmentCard::YearOfPlenty) > 0,
            ActionType::PlayMonopoly => (a.payload matches ActionPayload::Resource(_))
                && !pl.has_played_dev_card_this_turn && card_count(pl.dev_cards@, DevelopmentCard::Monopoly) > 0,
            ActionType::PlayRoadBuilding => !pl.has_played_dev_card_this_turn
                && card_count(pl.dev_cards@, DevelopmentCard::RoadBuilding) > 0,
            _ => false,
        }
    }

    /// Opening placements: settlement sites that obey the distance rule, then roads
    /// touching the settlement just placed.
    pub fn legal_setup_actions(&self) -> (acts: Vec<GameAction>)
        requires
            self.wf(),
        ensures
            all_by(acts@, self.current_player),
            self.phase matches GamePhase::Setup(_) ==> forall|k: int| 0 <= k < acts@.len() ==> self.accepts_setup(#[trigger] acts@[k]),
    {
        let mut acts: Vec<GameAction> = Vec::new();
        let p = self.current_player;
        match self.pending_prompt {
            ActionPrompt::BuildInitialSettlement => {
                let mut k: usize = 0;
                while k < self.map.land_nodes.len()
                    invariant
                        self.wf(),
                        p == self.current_player,
                        self.pending_prompt == ActionPrompt::BuildInitialSettlement,
                        0 <= k <= self.map.land_nodes@.len(),
                        all_by(acts@, p),
                        self.phase matches GamePhase::Setup(_) ==> forall|j: int| 0 <= j < acts@.len() ==> self.accepts_setup(#[trigger] acts@[j]),
                    decreases self.map.land_nodes@.len() - k,
                {
                    let node = self.map.land_nodes[k];
                    if self.validate_settlement_location(p, node, false).is_ok() {
                        acts.push(GameAction::new(p, ActionType::BuildSettlement).with_payload(ActionPayload::Node(node)));
                    }
                    k = k + 1;
                }
            },
            ActionPrompt::BuildInitialRoad => {
                match self.setup_pending_roads[p] {
                    Some(anchor) => {
                        let mut k: usize = 0;
                        while k < self.map.edges.len()
                            invariant
                                self.wf(),
                                p == self.current_player,
                                self.pending_prompt == ActionPrompt::BuildInitialRoad,
                                self.setup_pending_roads@[p as int] == Some(anchor),
                                0 <= k <= self.map.edges@.len(),
                                all_by(acts@, p),
                                self.phase matches GamePhase::Setup(_) ==> forall|j: int| 0 <= j < acts@.len() ==> self.accepts_setup(#[trigger] acts@[j]),
                            decreases self.map.edges@.len() - k,
                        {
                            let edge = self.map.edges[k];
                            if (edge.0 == anchor || edge.1 == anchor) && self.validate_road_location(p, edge, false).is_ok() {
                                acts.push(GameAction::new(p, ActionType::BuildRoad).with_payload(ActionPayload::Edge(edge)));
                            }
                            k = k + 1;
                        }
                    },
                    None => {},
                }
            },
            _ => {},
        }
        acts
    }

    /// Roads player `p` may build, network rule included.
    fn legal_road_actions(&self, p: usize) -> (acts: Vec<GameAction>)
        requires
            self.wf(),
            p < self.num_players(),
        ensures
            all_by(acts@, p),
            forall|k: int| 0 <= k < acts@.len() ==> (#[trigger] acts@[k]).action_type == ActionType::BuildRoad
                && (acts@[k].payload matches ActionPayload::Edge(e) && self.road_site_ok(p as int, e, true)),
    {
        let mut acts: Vec<GameAction> = Vec::new();
        let mut k: usize = 0;
        while k < self.map.edges.len()
            invariant
                self.wf(),
                p < self.num_players(),
                0 <= k <= self.map.edges@.len(),
                all_by(acts@, p),
                forall|j: int| 0 <= j < acts@.len() ==> (#[trigger] acts@[j]).action_type == ActionType::BuildRoad
                    && (acts@[j].payload matches ActionPayload::Edge(e) && self.road_site_ok(p as int, e, true)),
            decreases self.map.edges@.len() - k,
        {
            let edge = self.map.edges[k];
            if self.validate_road_location(p, edge, true).is_ok() {
                acts.push(GameAction::new(p, ActionType::BuildRoad).with_payload(ActionPayload::Edge(edge)));
            }
            k = k + 1;
        }
        acts
    }

    /// Maritime trades player `p` can afford at its rates, for kinds the bank still has.
    fn legal_maritime_trades(&self, p: usize) -> (acts: Vec<GameAction>)
        requires
            self.wf(),
            p < self.num_players(),
        ensures
            all_by(acts@, p),
            forall|k: int| 0 <= k < acts@.len() ==> (#[trigger] acts@[k]).action_type == ActionType::MaritimeTrade
                && (acts@[k].payload matches ActionPayload::MaritimeTrade { give, receive } && self.maritime_ok(p as int, give, receive)),
    {
        let mut acts: Vec<GameAction> = Vec::new();
        let mut i: usize = 0;
        while i < 5
            invariant
                self.wf(),
                p < self.num_players(),
                0 <= i <= 5,
                all_by(acts@, p),
                forall|k: int| 0 <= k < acts@.len() ==> (#[trigger] acts@[k]).action_type == ActionType::MaritimeTrade
                    && (acts@[k].payload matches ActionPayload::MaritimeTrade { give, receive } && self.maritime_ok(p as int, give, receive)),
            decreases 5 - i,
        {
            let resource = resource_at(i);
            let available = self.players[p].resources.get(resource);
            let rate = self.maritime_rate(p, resource);
            if available > 0 && available >= rate {
                let mut j: usize = 0;
                while j < 5
                    invariant
                        self.wf(),
                        p < self.num_players(),
                        0 <= j <= 5,
                        i < 5,
                        resource == crate::types::spec_resource_at(i as int),
                        available == self.players@[p as int].resources.count(resource),
                        rate == self.spec_maritime_rate(p as int, resource),
                        available > 0 && available >= rate,
                        all_by(acts@, p),
                        forall|k: int| 0 <= k < acts@.len() ==> (#[trigger] acts@[k]).action_type == ActionType::MaritimeTrade
                            && (acts@[k].payload matches ActionPayload::MaritimeTrade { give, receive } && self.maritime_ok(p as int, give, receive)),
                    decreases 5 - j,
                {
                    let target = resource_at(j);
                    if j != i && self.bank.available(target) > 0 {
                        let give = single_bundle(resource, rate);
                        proof {
                            assert(give.at(spec_resource_index(resource)) == rate);
                            assert(forall|x: int| 0 <= x < 5 && x != spec_resource_index(resource) ==> #[trigger] give.at(x) == 0);
                            lemma_single_kind(give, resource);
                            assert(self.players@[p as int].resources.covers(give));
                        }
                        acts.push(GameAction::new(p, ActionType::MaritimeTrade).with_payload(ActionPayload::MaritimeTrade { give, receive: target }));
                    }
                    j = j + 1;
                }
            }
            i = i + 1;
        }
        acts
    }

    /// Year-of-plenty choices the bank can cover: one card, or two of the same or
    /// different kinds.
    fn year_of_plenty_actions(&self, p: usize) -> (acts: Vec<GameAction>)
        requires
            self.wf(),
        ensures
            all_by(acts@, p),
            forall|k: int| 0 <= k < acts@.len() ==> (#[trigger] acts@[k]).action_type == ActionType::PlayYearOfPlenty
                && (acts@[k].payload matches ActionPayload::Resources(b) && 1 <= b.spec_total() <= 2 && self.bank.resources.covers(b)),
    {
        let mut acts: Vec<GameAction> = Vec::new();
        let mut i: usize = 0;
        while i < 5
            invariant
                0 <= i <= 5,
                all_by(acts@, p),
                forall|k: int| 0 <= k < acts@.len() ==> (#[trigger] acts@[k]).action_type == ActionType::PlayYearOfPlenty
                    && (acts@[k].payload matches ActionPayload::Resources(b) && 1 <= b.spec_total() <= 2 && self.bank.resources.covers(b)),
            decreases 5 - i,
        {
            let first = resource_at(i);
            if self.bank.available(first) > 0 {
                acts.push(GameAction::new(p, ActionType::PlayYearOfPlenty).with_payload(ActionPayload::Resources(single_bundle(first, 1))));
                let mut j: usize = i;
                while j < 5
                    invariant
                        i <= j <= 5,
                        i < 5,
                        first == crate::types::spec_resource_at(i as int),
                        self.bank.resources.count(first) > 0,
                        all_by(acts@, p),
                        forall|k: int| 0 <= k < acts@.len() ==> (#[trigger] acts@[k]).action_type == ActionType::PlayYearOfPlenty
                            && (acts@[k].payload matches ActionPayload::Resources(b) && 1 <= b.spec_total() <= 2 && self.bank.resources.covers(b)),
                    decreases 5 - j,
                {
                    let second = resource_at(j);
                    let mut bundle = single_bundle(first, 1);
                    if j == i {
                        if self.bank.available(first) >= 2 {
                            bundle.add(first, 1);
                            acts.push(GameAction::new(p, ActionType::PlayYearOfPlenty).with_payload(ActionPayload::Resources(bundle)));
                        }
                    } else if self.bank.available(second) > 0 {
                        bundle.add(second, 1);
                        acts.push(GameAction::new(p, ActionType::PlayYearOfPlenty).with_payload(ActionPayload::Resources(bundle)));
                    }
                    j = j + 1;
                }
            }
            i = i + 1;
        }
        acts
    }

    /// Development cards player `p` may play now.
    fn legal_dev_card_actions(&self, p: usize) -> (acts: Vec<GameAction>)
        requires
            self.wf(),
            p < self.num_players(),
        ensures
            all_by(acts@, p),
            all_accepted(self, acts@),
            self.players@[p as int].dev_cards@.len() == 0 ==> acts@.len() == 0,
            ({
                let pl = self.players@[p as int];
                &&& !pl.has_played_dev_card_this_turn && card_count(pl.dev_cards@, DevelopmentCard::Knight) > 0
                    ==> acts@.contains(GameAction::new_spec(p, ActionType::PlayKnightCard))
                &&& !pl.has_played_dev_card_this_turn && card_count(pl.dev_cards@, DevelopmentCard::RoadBuilding) > 0
                    ==> acts@.contains(GameAction::new_spec(p, ActionType::PlayRoadBuilding))
                &&& !pl.has_played_dev_card_this_turn && card_count(pl.dev_cards@, DevelopmentCard::Monopoly) > 0
                    ==> forall|r: Resource| acts@.contains(#[trigger] monopoly_action(p, r))
            }),
    {
        let mut acts: Vec<GameAction> = Vec::new();
        if self.players[p].has_played_dev_card_this_turn {
            return acts;
        }
        if self.players[p].can_play_dev_card(DevelopmentCard::Knight) {
            acts.push(GameAction::new(p, ActionType::PlayKnightCard));
            assert(acts@[acts@.len() - 1] == GameAction::new_spec(p, ActionType::PlayKnightCard));
        }
        if self.players[p].can_play_dev_card(DevelopmentCard::YearOfPlenty) {
            let more = self.year_of_plenty_actions(p);
            proof {
                assert forall|k: int| 0 <= k < more@.len() implies self.accepts_turn_action(#[trigger] more@[k]) by {
                    assert(more@[k].player_index == p);
                }
                lemma_all_accepted_append(self, acts@, more@);
            }
            append_all(&mut acts, more, Ghost(p));
        }
        let ghost before_mono = acts@;
        if self.players[p].can_play_dev_card(DevelopmentCard::Monopoly) {
            let mut i: usize = 0;
            while i < 5
                invariant
                    0 <= i <= 5,
                    p < self.num_players(),
                    !self.players@[p as int].has_played_dev_card_this_turn,
                    card_count(self.players@[p as int].dev_cards@, DevelopmentCard::Monopoly) > 0,
                    all_by(acts@, p),
                    all_accepted(self, acts@),
                    forall|x: GameAction| before_mono.contains(x) ==> #[trigger] acts@.contains(x),
                    forall|r: Resource| spec_resource_index(r) < i ==> acts@.contains(#[trigger] monopoly_action(p, r)),
                decreases 5 - i,
            {
                let ghost ab = acts@;
                let r = resource_at(i);
                acts.push(GameAction::new(p, ActionType::PlayMonopoly).with_payload(ActionPayload::Resource(r)));
                assert(acts@[acts@.len() - 1] == monopoly_action(p, r));
                assert forall|x: GameAction| before_mono.contains(x) implies #[trigger] acts@.contains(x) by {
                    assert(ab.contains(x));
                }
                i = i + 1;
            }
        }
        if self.players[p].can_play_dev_card(DevelopmentCard::RoadBuilding) {
            acts.push(GameAction::new(p, ActionType::PlayRoadBuilding));
            assert(acts@[acts@.len() - 1] == GameAction::new_spec(p, ActionType::PlayRoadBuilding));
        }
        acts
    }

    /// Settlements player `p` may build now: every site that obeys the distance rule
    /// and touches its network.
    fn legal_settlement_actions(&self, p: usize) -> (acts: Vec<GameAction>)
        requires
            self.wf(),
            p == self.current_player,
            !self.awaiting_roll,
            self.players@[p as int].resources.covers_counts(settlement_price()),
        ensures
            all_by(acts@, p),
            all_accepted(self, acts@),
            forall|n: NodeId| #[trigger] self.settlement_site_ok(p as int, n, true)
                ==> acts@.contains(GameAction { player_index: p, action_type: ActionType::BuildSettlement, payload: ActionPayload::Node(n) }),
    {
        let mut acts: Vec<GameAction> = Vec::new();
        let mut k: usize = 0;
        while k < self.map.land_nodes.len()
            invariant
                self.wf(),
                p == self.current_player,
                !self.awaiting_roll,
                self.players@[p as int].resources.covers_counts(settlement_price()),
                0 <= k <= self.map.land_nodes@.len(),
                all_by(acts@, p),
                all_accepted(self, acts@),
                forall|j: int| 0 <= j < k && #[trigger] self.settlement_site_ok(p as int, self.map.land_nodes@[j], true)
                    ==> acts@.contains(GameAction { player_index: p, action_type: ActionType::BuildSettlement, payload: ActionPayload::Node(self.map.land_nodes@[j]) }),
            decreases self.map.land_nodes@.len() - k,
        {
            let node = self.map.land_nodes[k];
            if self.validate_settlement_location(p, node, true).is_ok() {
                acts.push(GameAction::new(p, ActionType::BuildSettlement).with_payload(ActionPayload::Node(node)));
                assert(acts@[acts@.len() - 1] == GameAction { player_index: p, action_type: ActionType::BuildSettlement, payload: ActionPayload::Node(node) });
            }
            k = k + 1;
        }
        assert forall|n: NodeId| #[trigger] self.settlement_site_ok(p as int, n, true)
            implies acts@.contains(GameAction { player_index: p, action_type: ActionType::BuildSettlement, payload: ActionPayload::Node(n) }) by {
            let j = self.map.land_nodes@.index_of(n);
            assert(self.map.land_nodes@[j] == n);
        }
        acts
    }

    /// Cities player `p` may build now: one per settlement it owns.
    fn legal_city_actions(&self, p: usize) -> (acts: Vec<GameAction>)
        requires
            self.wf(),
            p == self.current_player,
            !self.awaiting_roll,
            self.players@[p as int].cities@.len() < MAX_CITIES,
            self.players@[p as int].resources.covers_counts(city_price()),
        ensures
            all_by(acts@, p),
            all_accepted(self, acts@),
            forall|n: NodeId| #[trigger] self.players@[p as int].settlements@.contains(n)
                ==> acts@.contains(GameAction { player_index: p, action_type: ActionType::BuildCity, payload: ActionPayload::Node(n) }),
    {
        let player = &self.players[p];
        let mut acts: Vec<GameAction> = Vec::new();
        let mut k: usize = 0;
        while k < player.settlements.len()
            invariant
                p == self.current_player,
                p < self.num_players(),
                player == &self.players@[p as int],
                !self.awaiting_roll,
                player.cities@.len() < MAX_CITIES,
                player.resources.covers_counts(city_price()),
                0 <= k <= player.settlements@.len(),
                all_by(acts@, p),
                all_accepted(self, acts@),
                forall|j: int| 0 <= j < k ==> acts@.contains(GameAction { player_index: p, action_type: ActionType::BuildCity,
                    payload: ActionPayload::Node(#[trigger] player.settlements@[j]) }),
            decreases player.settlements@.len() - k,
        {
            acts.push(GameAction::new(p, ActionType::BuildCity).with_payload(ActionPayload::Node(player.settlements[k])));
            assert(acts@[acts@.len() - 1] == GameAction { player_index: p, action_type: ActionType::BuildCity, payload: ActionPayload::Node(player.settlements@[k as int]) });
            k = k + 1;
        }
        assert forall|n: NodeId| #[trigger] self.players@[p as int].settlements@.contains(n)
            implies acts@.contains(GameAction { player_index: p, action_type: ActionType::BuildCity, payload: ActionPayload::Node(n) }) by {
            let j = player.settlements@.index_of(n);
            assert(player.settlements@[j] == n);
        }
        acts
    }

    /// The choices of a regular turn: roll first; afterwards build, buy, trade with
    /// the bank, end the turn; development cards at any time.
    pub fn legal_play_turn_actions(&self) -> (acts: Vec<GameAction>)
        requires
            self.wf(),
        ensures
            all_by(acts@, self.current_player),
            all_accepted(self, acts@),
            acts@.len() > 0,
            self.awaiting_roll ==> acts@[0] == GameAction::new_spec(self.current_player, ActionType::Roll),
            !self.awaiting_roll ==> acts@[0] == GameAction::new_spec(self.current_player, ActionType::EndTurn),
            self.awaiting_roll && self.road_building_player != Some(self.current_player)
                && self.players@[self.current_player as int].dev_cards@.len() == 0
                ==> acts@ == seq![GameAction::new_spec(self.current_player, ActionType::Roll)],
            ({
                let p = self.current_player;
                let pl = self.players@[p as int];
                &&& !self.awaiting_roll && pl.settlements@.len() < crate::players::MAX_SETTLEMENTS && pl.resources.covers_counts(settlement_price())
                    ==> forall|n: NodeId| #[trigger] self.settlement_site_ok(p as int, n, true) ==> acts@.contains(
                        GameAction { player_index: p, action_type: ActionType::BuildSettlement, payload: ActionPayload::Node(n) })
                &&& !self.awaiting_roll && pl.cities@.len() < MAX_CITIES && pl.resources.covers_counts(city_price())
                    ==> forall|n: NodeId| #[trigger] pl.settlements@.contains(n) ==> acts@.contains(
                        GameAction { player_index: p, action_type: ActionType::BuildCity, payload: ActionPayload::Node(n) })
                &&& !self.awaiting_roll && self.bank.development_deck@.len() > 0 && pl.resources.covers_counts(development_price())
                    ==> acts@.contains(GameAction::new_spec(p, ActionType::BuyDevelopmentCard))
                &&& !pl.has_played_dev_card_this_turn && card_count(pl.dev_cards@, DevelopmentCard::Knight) > 0
                    ==> acts@.contains(GameAction::new_spec(p, ActionType::PlayKnightCard))
                &&& !pl.has_played_dev_card_this_turn && card_count(pl.dev_cards@, DevelopmentCard::RoadBuilding) > 0
                    ==> acts@.contains(GameAction::new_spec(p, ActionType::PlayRoadBuilding))
                &&& !pl.has_played_dev_card_this_turn && card_count(pl.dev_cards@, DevelopmentCard::Monopoly) > 0
                    ==> forall|r: Resource| acts@.contains(#[trigger] monopoly_action(p, r))
            }),
    {
        let p = self.current_player;
        let mut acts: Vec<GameAction> = Vec::new();
        if self.awaiting_roll {
            acts.push(GameAction::new(p, ActionType::Roll));
        } else {
            acts.push(GameAction::new(p, ActionType::EndTurn));
        }
        let ghost first = acts@[0];
        let free_roads = match self.road_building_player {
            Some(q) => q == p && self.road_building_free_roads > 0,
            None => false,
        };
        let is_road_building = !self.players[p].road_limit_reached() && free_roads;
        if is_road_building {
            let more = self.legal_road_actions(p);
            proof {
                assert forall|k: int| 0 <= k < more@.len() implies self.accepts_turn_action(#[trigger] more@[k]) by {
                    assert(more@[k].player_index == p);
                }
                lemma_all_accepted_append(self, acts@, more@);
            }
            append_all(&mut acts, more, Ghost(p));
        }
        if !self.awaiting_roll {
            let player = &self.players[p];
            let road_cost = cost_road();
            assert(road_cost.counts@ =~= road_price());
            if !is_road_building && !player.road_limit_reached() && player.resources.can_afford(&road_cost) {
                let more = self.legal_road_actions(p);
                proof {
                    assert forall|k: int| 0 <= k < more@.len() implies self.accepts_turn_action(#[trigger] more@[k]) by {
                        assert(more@[k].player_index == p);
                    }
                    lemma_all_accepted_append(self, acts@, more@);
                }
                append_all(&mut acts, more, Ghost(p));
            }
            let settlement_cost = cost_settlement();
            assert(settlement_cost.counts@ =~= settlement_price());
            if !player.settlement_limit_reached() && player.resources.can_afford(&settlement_cost) {
                let more = self.legal_settlement_actions(p);
                proof {
                    lemma_all_accepted_append(self, acts@, more@);
                }
                append_all(&mut acts, more, Ghost(p));
            }
            let city_cost = cost_city();
            assert(city_cost.counts@ =~= city_price());
            if !player.city_limit_reached() && player.resources.can_afford(&city_cost) {
                let more = self.legal_city_actions(p);
                proof {
                    lemma_all_accepted_append(self, acts@, more@);
                }
                append_all(&mut acts, more, Ghost(p));
            }
            let dev_cost = cost_development();
            assert(dev_cost.counts@ =~= development_price());
            if self.bank.development_deck_len() > 0 && player.resources.can_afford(&dev_cost) {
                acts.push(GameAction::new(p, ActionType::BuyDevelopmentCard));
                assert(acts@[acts@.len() - 1] == GameAction::new_spec(p, ActionType::BuyDevelopmentCard));
            }
            let more = self.legal_maritime_trades(p);
            proof {
                assert forall|k: int| 0 <= k < more@.len() implies self.accepts_turn_action(#[trigger] more@[k]) by {
                    assert(more@[k].player_index == p);
                }
                lemma_all_accepted_append(self, acts@, more@);
            }
            append_all(&mut acts, more, Ghost(p));
        }
        let ghost before_dev = acts@;
        let more = self.legal_dev_card_actions(p);
        proof {
            lemma_all_accepted_append(self, acts@, more@);
        }
        append_all(&mut acts, more, Ghost(p));
        proof {
            if self.awaiting_roll && self.road_building_player != Some(self.current_player)
                && self.players@[self.current_player as int].dev_cards@.len() == 0 {
                assert(before_dev =~= seq![GameAction::new_spec(self.current_player, ActionType::Roll)]);
                assert(acts@ =~= before_dev);
            }
        }
        acts
    }
}

impl GameState {
    /// One discard action per kind of card the discarding player holds, while that
    /// player still owes cards.
    fn legal_discard_actions(&self) -> (acts: Vec<GameAction>)
        requires
            self.wf(),
        ensures
            all_by(acts@, self.current_player),
            forall|k: int| 0 <= k < acts@.len() ==> self.accepts_discard(#[trigger] acts@[k]),
    {
        let p = self.current_player;
        let mut acts: Vec<GameAction> = Vec::new();
        if self.discard_targets[p] == 0 {
            return acts;
        }
        let mut i: usize = 0;
        while i < 5
            invariant
                self.wf(),
                p == self.current_player,
                self.discard_targets@[p as int] > 0,
                0 <= i <= 5,
                all_by(acts@, p),
                forall|k: int| 0 <= k < acts@.len() ==> self.accepts_discard(#[trigger] acts@[k]),
            decreases 5 - i,
        {
            let r = resource_at(i);
            if self.players[p].resources.get(r) > 0 {
                acts.push(GameAction::new(p, ActionType::Discard).with_payload(ActionPayload::Resource(r)));
            }
            i = i + 1;
        }
        acts
    }

    /// Player `v` has a building on corner `k` of tile `t`.
    pub open spec fn owns_corner(&self, t: crate::board::LandTile, v: int, k: int) -> bool {
        let n = t.nodes@[k] as int;
        &&& 0 <= n < self.node_occupancy@.len()
        &&& self.node_occupancy@[n] is Some
        &&& crate::state::structure_owner(self.node_occupancy@[n].unwrap()) == v
    }

    /// Player `v` can be robbed at tile `t` by the current player: another seated
    /// player with cards and a building on one of the first `m` corners of the tile.
    pub open spec fn robber_victim(&self, t: crate::board::LandTile, v: int, m: int) -> bool {
        &&& 0 <= v < self.num_players()
        &&& v != self.current_player
        &&& self.players@[v].resources.spec_total() > 0
        &&& exists|k: int| 0 <= k < m && #[trigger] self.owns_corner(t, v, k)
    }

    /// The move of the robber to `t` naming `victim`.
    pub open spec fn robber_action(&self, t: crate::board::LandTile, victim: Option<usize>) -> GameAction {
        GameAction {
            player_index: self.current_player,
            action_type: ActionType::MoveRobber,
            payload: ActionPayload::Robber { tile_id: t.id, victim, resource: None },
        }
    }

    /// The robber moves offered for tile `t`: one per possible victim, or one naming none.
    pub open spec fn robber_moves_listed(&self, t: crate::board::LandTile, acts: Seq<GameAction>) -> bool {
        &&& forall|v: int| #[trigger] self.robber_victim(t, v, 6) ==> acts.contains(self.robber_action(t, Some(v as usize)))
        &&& (forall|v: int| !#[trigger] self.robber_victim(t, v, 6)) ==> acts.contains(self.robber_action(t, None))
    }

    /// Every land tile but the robber's, with each opponent next to it who has cards
    /// as a possible victim (or no victim when there is none).
    fn legal_move_robber_actions(&self) -> (acts: Vec<GameAction>)
        requires
            self.wf(),
        ensures
            all_by(acts@, self.current_player),
            forall|k: int| 0 <= k < acts@.len() ==> self.accepts_robber_move(#[trigger] acts@[k]),
            forall|ti: int| 0 <= ti < self.map.land_tiles@.len() && (#[trigger] self.map.land_tiles@[ti]).id != self.robber_tile
                ==> self.robber_moves_listed(self.map.land_tiles@[ti], acts@),
    {
        let p = self.current_player;
        let mut acts: Vec<GameAction> = Vec::new();
        let mut t: usize = 0;
        while t < self.map.land_tiles.len()
            invariant
                self.wf(),
                p == self.current_player,
                0 <= t <= self.map.land_tiles@.len(),
                all_by(acts@, p),
                forall|k: int| 0 <= k < acts@.len() ==> self.accepts_robber_move(#[trigger] acts@[k]),
                forall|ti: int| 0 <= ti < t && (#[trigger] self.map.land_tiles@[ti]).id != self.robber_tile
                    ==> self.robber_moves_listed(self.map.land_tiles@[ti], acts@),
            decreases self.map.land_tiles@.len() - t,
        {
            let tile = self.map.land_tiles[t];
            assert(self.has_tile(tile.id)) by {
                assert(self.map.land_tiles@[t as int].id == tile.id);
            }
            let ghost acts0 = acts@;
            t = t + 1;
            if tile.id == self.robber_tile {
                continue;
            }
            let mut victims: Vec<usize> = Vec::new();
            let mut k: usize = 0;
            while k < 6
                invariant
                    self.wf(),
                    p == self.current_player,
                    0 <= k <= 6,
                    forall|j: int| 0 <= j < victims@.len() ==> #[trigger] victims@[j] < self.num_players() && victims@[j] != p
                        && self.robber_victim(tile, victims@[j] as int, 6),
                    forall|v: int| #[trigger] self.robber_victim(tile, v, k as int) ==> victims@.contains(v as usize),
                decreases 6 - k,
            {
                let ghost vb = victims@;
                match self.node_owner(tile.nodes[k]) {
                    Some(owner) => {
                        assert(self.owns_corner(tile, owner as int, k as int));
                        if owner != p && !self.players[owner].resources.is_empty() && !contains_index(&victims, owner) {
                            victims.push(owner);
                        }
                    },
                    None => {},
                }
                proof {
                    assert forall|j: int| 0 <= j < victims@.len() implies #[trigger] victims@[j] < self.num_players() && victims@[j] != p
                        && self.robber_victim(tile, victims@[j] as int, 6) by {
                        if j < vb.len() {
                            assert(victims@[j] == vb[j]);
                        }
                    }
                    assert forall|v: int| #[trigger] self.robber_victim(tile, v, k + 1) implies victims@.contains(v as usize) by {
                        let w = choose|w: int| 0 <= w < k + 1 && #[trigger] self.owns_corner(tile, v, w);
                        if w < k {
                            assert(self.robber_victim(tile, v, k as int));
                            assert(vb.contains(v as usize));
                        } else {
                            assert(self.players@[v].resources.spec_total() > 0);
                        }
                    }
                }
                k = k + 1;
            }
            if victims.len() == 0 {
                acts.push(GameAction::new(p, ActionType::MoveRobber).with_payload(
                    ActionPayload::Robber { tile_id: tile.id, victim: None, resource: None },
                ));
                proof {
                    assert(acts@[acts@.len() - 1] == self.robber_action(tile, None));
                    assert forall|v: int| !#[trigger] self.robber_victim(tile, v, 6) by {
                        if self.robber_victim(tile, v, 6) {
                            assert(victims@.contains(v as usize));
                        }
                    }
                }
            } else {
                let mut v: usize = 0;
                while v < victims.len()
                    invariant
                        0 <= v <= victims@.len(),
                        p == self.current_player,
                        self.has_tile(tile.id),
                        forall|j: int| 0 <= j < victims@.len() ==> #[trigger] victims@[j] < self.num_players() && victims@[j] != p,
                        all_by(acts@, p),
                        forall|k: int| 0 <= k < acts@.len() ==> self.accepts_robber_move(#[trigger] acts@[k]),
                        forall|x: GameAction| acts0.contains(x) ==> #[trigger] acts@.contains(x),
                        forall|j: int| 0 <= j < v ==> acts@.contains(self.robber_action(tile, Some(#[trigger] victims@[j]))),
                    decreases victims@.len() - v,
                {
                    let ghost ab = acts@;
                    acts.push(GameAction::new(p, ActionType::MoveRobber).with_payload(
                        ActionPayload::Robber { tile_id: tile.id, victim: Some(victims[v]), resource: None },
                    ));
                    assert(acts@[acts@.len() - 1] == self.robber_action(tile, Some(victims@[v as int])));
                    assert forall|x: GameAction| acts0.contains(x) implies #[trigger] acts@.contains(x) by {
                        assert(ab.contains(x));
                    }
                    v = v + 1;
                }
                proof {
                    assert forall|w: int| #[trigger] self.robber_victim(tile, w, 6) implies acts@.contains(self.robber_action(tile, Some(w as usize))) by {
                        let j = victims@.index_of(w as usize);
                        assert(victims@[j] == w as usize);
                    }
                    assert(victims@.len() > 0);
                    assert(self.robber_victim(tile, victims@[0] as int, 6));
                }
            }
            proof {
                assert forall|ti: int| 0 <= ti < t && (#[trigger] self.map.land_tiles@[ti]).id != self.robber_tile
                    implies self.robber_moves_listed(self.map.land_tiles@[ti], acts@) by {
                    if ti < t - 1 {
                        let tt = self.map.land_tiles@[ti];
                        assert forall|v: int| #[trigger] self.robber_victim(tt, v, 6) implies acts@.contains(self.robber_action(tt, Some(v as usize))) by {
                            assert(acts0.contains(self.robber_action(tt, Some(v as usize))));
                        }
                        if forall|v: int| !#[trigger] self.robber_victim(tt, v, 6) {
                            assert(acts0.contains(self.robber_action(tt, None)));
                        }
                    } else {
                        assert(self.map.land_tiles@[ti] == tile);
                    }
                }
            }
        }
        acts
    }

    /// Reject, and accept when the responder holds what is asked for.
    fn legal_trade_response_actions(&self) -> (acts: Vec<GameAction>)
        requires
            self.wf(),
        ensures
            all_by(acts@, self.current_player),
            forall|k: int| 0 <= k < acts@.len() ==> self.accepts_trade_response(#[trigger] acts@[k]),
    {
        let p = self.current_player;
        let mut acts: Vec<GameAction> = Vec::new();
        match &self.trade_state {
            Some(state) => {
                if p != state.offerer {
                    acts.push(GameAction::new(p, ActionType::RejectTrade));
                    if self.players[p].resources.can_afford(&state.receive) {
                        acts.push(GameAction::new(p, ActionType::AcceptTrade));
                    }
                }
            },
            None => {},
        }
        acts
    }

    /// Cancel, or confirm with one of the other players who accepted and can still pay,
    /// when the offerer can too.
    fn legal_trade_confirmation_actions(&self) -> (acts: Vec<GameAction>)
        requires
            self.wf(),
        ensures
            all_by(acts@, self.current_player),
            forall|k: int| 0 <= k < acts@.len() ==> self.accepts_trade_confirmation(#[trigger] acts@[k]),
    {
        let p = self.current_player;
        let mut acts: Vec<GameAction> = Vec::new();
        match &self.trade_state {
            Some(state) => {
                if p == state.offerer {
                    acts.push(GameAction::new(p, ActionType::CancelTrade));
                    let offerer_pays = self.players[p].resources.can_afford(&state.give);
                    let mut k: usize = 0;
                    while k < state.acceptees.len()
                        invariant
                            self.wf(),
                            self.trade_state == Some(*state),
                            p == self.current_player,
                            p == state.offerer,
                            offerer_pays == self.players@[p as int].resources.covers(state.give),
                            0 <= k <= state.acceptees@.len(),
                            all_by(acts@, p),
                            forall|j: int| 0 <= j < acts@.len() ==> self.accepts_trade_confirmation(#[trigger] acts@[j]),
                        decreases state.acceptees@.len() - k,
                    {
                        let partner = state.acceptees[k];
                        if offerer_pays && partner < self.players.len() && partner != p
                            && self.players[partner].resources.can_afford(&state.receive) {
                            assert(state.acceptees@.contains(partner));
                            acts.push(GameAction::new(p, ActionType::ConfirmTrade).with_payload(
                                ActionPayload::Trade { give: state.give, receive: state.receive, partner: Some(partner) },
                            ));
                        }
                        k = k + 1;
                    }
                }
            },
            None => {},
        }
        acts
    }

    /// The legal actions of the current state; none once the game is over.
    pub fn compute_available_actions(&self) -> (acts: Vec<GameAction>)
        requires
            self.wf(),
        ensures
            all_by(acts@, self.current_player),
            self.phase matches GamePhase::Setup(_) ==> forall|k: int| 0 <= k < acts@.len() ==> self.accepts_setup(#[trigger] acts@[k]),
            self.phase == GamePhase::Playing ==> forall|k: int| 0 <= k < acts@.len() ==> self.accepts_play(#[trigger] acts@[k]),
            self.phase == GamePhase::Playing && self.pending_prompt == ActionPrompt::PlayTurn ==> all_accepted(self, acts@),
            self.phase == GamePhase::Playing && self.pending_prompt == ActionPrompt::PlayTurn && self.awaiting_roll
                && self.road_building_player != Some(self.current_player)
                && self.players@[self.current_player as int].dev_cards@.len() == 0
                ==> acts@ == seq![GameAction::new_spec(self.current_player, ActionType::Roll)],
            self.phase == GamePhase::Playing && self.pending_prompt == ActionPrompt::MoveRobber
                ==> forall|k: int| 0 <= k < acts@.len() ==> self.accepts_robber_move(#[trigger] acts@[k]),
            self.phase == GamePhase::Playing && self.pending_prompt == ActionPrompt::Discard
                ==> forall|k: int| 0 <= k < acts@.len() ==> self.accepts_discard(#[trigger] acts@[k]),
            self.phase == GamePhase::Playing && self.pending_prompt == ActionPrompt::DecideTrade
                ==> forall|k: int| 0 <= k < acts@.len() ==> self.accepts_trade_response(#[trigger] acts@[k]),
            self.phase == GamePhase::Playing && self.pending_prompt == ActionPrompt::DecideAcceptees
                ==> forall|k: int| 0 <= k < acts@.len() ==> self.accepts_trade_confirmation(#[trigger] acts@[k]),
            self.phase matches GamePhase::Completed { .. } ==> acts@.len() == 0,
    {
        match self.phase {
            GamePhase::Setup(_) => self.legal_setup_actions(),
            GamePhase::Playing => match self.pending_prompt {
                ActionPrompt::PlayTurn => self.legal_play_turn_actions(),
                ActionPrompt::Discard => self.legal_discard_actions(),
                ActionPrompt::MoveRobber => self.legal_move_robber_actions(),
                ActionPrompt::DecideTrade => self.legal_trade_response_actions(),
                ActionPrompt::DecideAcceptees => self.legal_trade_confirmation_actions(),
                _ => Vec::new(),
            },
            GamePhase::Completed { .. } => Vec::new(),
        }
    }
}

} // verus!
