use vstd::prelude::*;

use crate::action::{ActionPayload, GameAction};
use crate::game::Game;
use crate::resources::ResourceBundle;
use crate::state::{GamePhase, GameState};
use crate::types::{resource_at, spec_resource_index, ActionPrompt, ActionType, Resource};

verus! {

broadcast use vstd::seq_lib::group_seq_properties;

/// In how many of the 36 outcomes of two dice the sum is `n`.
pub open spec fn spec_number_ways(n: int) -> int {
    if 2 <= n <= 12 {
        if n <= 7 { n - 1 } else { 13 - n }
    } else {
        0
    }
}

pub fn number_ways(n: u8) -> (w: u8)
    ensures
        w == spec_number_ways(n as int),
{
    if n < 2 || n > 12 {
        0
    } else if n <= 7 {
        n - 1
    } else {
        13 - n
    }
}

/// The eleven dice sums as (die, die, ways out of 36), sum 2 first; a sum `s` is
/// rolled as `s / 2` and the rest.
pub fn roll_outcomes() -> (v: Vec<(u8, u8, u8)>)
    ensures
        v@.len() == 11,
        forall|k: int| 0 <= k < 11 ==> {
            let o = #[trigger] v@[k];
            &&& o.0 == (k + 2) / 2
            &&& o.0 + o.1 == k + 2
            &&& o.2 == spec_number_ways(k + 2)
        },
{
    let mut v: Vec<(u8, u8, u8)> = Vec::new();
    let mut sum: u8 = 2;
    while sum <= 12
        invariant
            2 <= sum <= 13,
            v@.len() == sum - 2,
            forall|k: int| 0 <= k < sum - 2 ==> {
                let o = #[trigger] v@[k];
                &&& o.0 == (k + 2) / 2
                &&& o.0 + o.1 == k + 2
                &&& o.2 == spec_number_ways(k + 2)
            },
        decreases 13 - sum,
    {
        let d1 = sum / 2;
        let d2 = sum - d1;
        v.push((d1, d2, number_ways(sum)));
        sum = sum + 1;
    }
    v
}

/// The kinds of card a victim holds, in canonical order: the outcomes of a steal,
/// each taken as equally likely.
pub fn steal_outcomes(hand: &ResourceBundle) -> (v: Vec<Resource>)
    ensures
        forall|k: int| 0 <= k < v@.len() ==> hand.count(#[trigger] v@[k]) > 0,
        forall|r: Resource| hand.count(r) > 0 ==> #[trigger] v@.contains(r),
        forall|i: int, j: int| 0 <= i < j < v@.len() ==> spec_resource_index(#[trigger] v@[i]) < spec_resource_index(#[trigger] v@[j]),
{
    let mut v: Vec<Resource> = Vec::new();
    let mut i: usize = 0;
    while i < 5
        invariant
            0 <= i <= 5,
            forall|k: int| 0 <= k < v@.len() ==> hand.count(#[trigger] v@[k]) > 0,
            forall|k: int| 0 <= k < v@.len() ==> spec_resource_index(#[trigger] v@[k]) < i,
            forall|r: Resource| hand.count(r) > 0 && spec_resource_index(r) < i ==> #[trigger] v@.contains(r),
            forall|a: int, b: int| 0 <= a < b < v@.len() ==> spec_resource_index(#[trigger] v@[a]) < spec_resource_index(#[trigger] v@[b]),
        decreases 5 - i,
    {
        let r = resource_at(i);
        if hand.get(r) > 0 {
            v.push(r);
            assert(v@[v@.len() - 1] == r);
        }
        i = i + 1;
    }
    v
}

/// A legal action that the search skips: an opening settlement touching a single
/// tile, or a four-for-one trade while the player has a generic port.
pub open spec fn pruned(s: &GameState, a: GameAction) -> bool {
    ||| (s.phase matches GamePhase::Setup(_) && s.pending_prompt == ActionPrompt::BuildInitialSettlement
        && a.action_type == ActionType::BuildSettlement
        && (a.payload matches ActionPayload::Node(n) && (n as int) < s.map.adjacent_tiles@.len()
            && s.map.adjacent_tiles@[n as int]@.len() == 1))
    ||| (a.action_type == ActionType::MaritimeTrade && s.spec_has_port(s.current_player as int, None)
        && (a.payload matches ActionPayload::MaritimeTrade { give, .. } && exists|i: int| 0 <= i < 5 && give.at(i) > 0)
        && (a.payload matches ActionPayload::MaritimeTrade { give, .. }
            && s.spec_maritime_rate(s.current_player as int, first_given(give)) == 4))
}

/// The first kind of card in the bundle, in canonical order.
pub open spec fn first_given(b: ResourceBundle) -> Resource {
    if b.at(0) > 0 {
        Resource::Wood
    } else if b.at(1) > 0 {
        Resource::Brick
    } else if b.at(2) > 0 {
        Resource::Sheep
    } else if b.at(3) > 0 {
        Resource::Wheat
    } else {
        Resource::Ore
    }
}

fn first_given_exec(b: &ResourceBundle) -> (r: Option<Resource>)
    ensures
        r.is_some() <==> exists|i: int| 0 <= i < 5 && b.at(i) > 0,
        r.is_some() ==> r.unwrap() == first_given(*b),
{
    if b.counts[0] > 0 {
        assert(b.at(0) > 0);
        Some(Resource::Wood)
    } else if b.counts[1] > 0 {
        assert(b.at(1) > 0);
        Some(Resource::Brick)
    } else if b.counts[2] > 0 {
        assert(b.at(2) > 0);
        Some(Resource::Sheep)
    } else if b.counts[3] > 0 {
        assert(b.at(3) > 0);
        Some(Resource::Wheat)
    } else if b.counts[4] > 0 {
        assert(b.at(4) > 0);
        Some(Resource::Ore)
    } else {
        assert(forall|i: int| 0 <= i < 5 ==> b.at(i) == 0);
        None
    }
}

/// The legal actions without the ones the search skips, order kept.
pub fn list_pruned_actions(game: &Game) -> (v: Vec<GameAction>)
    requires
        game.wf(),
    ensures
        v@ == game.state.available_actions@.filter(|a: GameAction| !pruned(&game.state, a)),
{
    let s = &game.state;
    let legal = &s.available_actions;
    let mut v: Vec<GameAction> = Vec::new();
    let mut k: usize = 0;
    while k < legal.len()
        invariant
            s.wf(),
            0 <= k <= legal@.len(),
            v@ == legal@.subrange(0, k as int).filter(|a: GameAction| !pruned(s, a)),
        decreases legal@.len() - k,
    {
        let a = legal[k];
        let drop = is_pruned(s, &a);
        proof {
            reveal(Seq::filter);
            assert(legal@.subrange(0, k + 1).drop_last() =~= legal@.subrange(0, k as int));
        }
        if !drop {
            v.push(a);
        }
        k = k + 1;
    }
    assert(legal@.subrange(0, k as int) =~= legal@);
    v
}

fn is_pruned(s: &GameState, a: &GameAction) -> (b: bool)
    requires
        s.wf(),
    ensures
        b == pruned(s, *a),
{
    let setup_place = match s.phase {
        GamePhase::Setup(_) => s.pending_prompt == ActionPrompt::BuildInitialSettlement,
        _ => false,
    };
    if setup_place && a.action_type == ActionType::BuildSettlement {
        match a.payload {
            ActionPayload::Node(n) => {
                if (n as usize) < s.map.adjacent_tiles.len() && s.map.adjacent_tiles[n as usize].len() == 1 {
                    return true;
                }
            },
            _ => {},
        }
    }
    if a.action_type == ActionType::MaritimeTrade {
        match a.payload {
            ActionPayload::MaritimeTrade { give, .. } => {
                if s.player_has_port(s.current_player, None) {
                    match first_given_exec(&give) {
                        Some(r) => {
                            return s.maritime_rate(s.current_player, r) == 4;
                        },
                        None => {},
                    }
                }
            },
            _ => {},
        }
    }
    false
}

impl GameState {
    /// Among `nodes`, how many player `p` could settle by the distance rule alone:
    /// not its own building, and no occupied neighbour.
    pub open spec fn buildable_in(&self, p: int, nodes: Seq<crate::board::NodeId>) -> int
        decreases nodes.len(),
    {
        if nodes.len() == 0 {
            0
        } else {
            let n = nodes.last();
            self.buildable_in(p, nodes.drop_last()) + if !self.players@[p].settlements@.contains(n)
                && !self.players@[p].cities@.contains(n) && (n as int) < self.map.num_nodes()
                && self.neighbors_free(n as int) { 1int } else { 0int }
        }
    }

    /// How many land nodes player `p` could still settle by the distance rule alone.
    pub fn buildable_nodes(&self, p: usize) -> (c: usize)
        requires
            self.wf(),
            p < self.num_players(),
        ensures
            c == self.buildable_in(p as int, self.map.land_nodes@),
    {
        let nodes = &self.map.land_nodes;
        let mut c: usize = 0;
        let mut k: usize = 0;
        while k < nodes.len()
            invariant
                self.wf(),
                p < self.num_players(),
                nodes@ == self.map.land_nodes@,
                0 <= k <= nodes@.len(),
                c == self.buildable_in(p as int, nodes@.subrange(0, k as int)),
                c <= k,
            decreases nodes@.len() - k,
        {
            assert(nodes@.subrange(0, k + 1).drop_last() =~= nodes@.subrange(0, k as int));
            let n = nodes[k];
            if !crate::placement::contains_node(&self.players[p].settlements, n)
                && !crate::placement::contains_node(&self.players[p].cities, n)
                && (n as usize) < self.map.node_neighbors.len()
                && self.neighbors_unoccupied(n) {
                c = c + 1;
            }
            k = k + 1;
        }
        assert(nodes@.subrange(0, k as int) =~= nodes@);
        c
    }
}

/// Adds each id of `ids` not already in `v`.
fn add_missing(v: &mut Vec<u16>, ids: &Vec<u16>)
    requires
        old(v)@.no_duplicates(),
    ensures
        final(v)@.no_duplicates(),
        forall|x: u16| #[trigger] final(v)@.contains(x) <==> old(v)@.contains(x) || ids@.contains(x),
{
    let mut j: usize = 0;
    while j < ids.len()
        invariant
            0 <= j <= ids@.len(),
            v@.no_duplicates(),
            forall|x: u16| #[trigger] v@.contains(x) <==> old(v)@.contains(x) || ids@.subrange(0, j as int).contains(x),
        decreases ids@.len() - j,
    {
        let id = ids[j];
        let mut present = false;
        let mut i: usize = 0;
        while i < v.len()
            invariant
                0 <= i <= v@.len(),
                present <==> v@.subrange(0, i as int).contains(id),
            decreases v@.len() - i,
        {
            if v[i] == id {
                present = true;
            }
            assert(v@.subrange(0, i + 1) =~= v@.subrange(0, i as int).push(v@[i as int]));
            i = i + 1;
        }
        assert(v@.subrange(0, i as int) =~= v@);
        let ghost vb = v@;
        if !present {
            v.push(id);
            assert forall|a: int, b: int| 0 <= a < v@.len() && 0 <= b < v@.len() && a != b implies v@[a] != v@[b] by {
                if a < vb.len() && b < vb.len() {
                    assert(vb[a] != vb[b]);
                } else if a < vb.len() {
                    assert(vb.contains(vb[a]));
                } else {
                    assert(vb.contains(vb[b]));
                }
            }
        }
        assert(ids@.subrange(0, j + 1) =~= ids@.subrange(0, j as int).push(id));
        j = j + 1;
    }
    assert(ids@.subrange(0, j as int) =~= ids@);
}

impl GameState {
    /// The land tiles next to node `n`.
    pub open spec fn node_tiles(&self, n: crate::board::NodeId) -> Seq<u16> {
        if (n as int) < self.map.adjacent_tiles@.len() { self.map.adjacent_tiles@[n as int]@ } else { Seq::empty() }
    }

    /// Tile `id` lies next to one of `nodes`.
    pub open spec fn next_to_any(&self, nodes: Seq<crate::board::NodeId>, id: u16) -> bool
        decreases nodes.len(),
    {
        nodes.len() > 0 && (self.next_to_any(nodes.drop_last(), id) || self.node_tiles(nodes.last()).contains(id))
    }

    fn collect_tiles(&self, nodes: &Vec<crate::board::NodeId>, v: &mut Vec<u16>)
        requires
            old(v)@.no_duplicates(),
        ensures
            final(v)@.no_duplicates(),
            forall|x: u16| #[trigger] final(v)@.contains(x) <==> old(v)@.contains(x) || self.next_to_any(nodes@, x),
    {
        let mut k: usize = 0;
        while k < nodes.len()
            invariant
                0 <= k <= nodes@.len(),
                v@.no_duplicates(),
                forall|x: u16| #[trigger] v@.contains(x) <==> old(v)@.contains(x) || self.next_to_any(nodes@.subrange(0, k as int), x),
            decreases nodes@.len() - k,
        {
            assert(nodes@.subrange(0, k + 1).drop_last() =~= nodes@.subrange(0, k as int));
            let n = nodes[k];
            if (n as usize) < self.map.adjacent_tiles.len() {
                add_missing(v, &self.map.adjacent_tiles[n as usize]);
            }
            k = k + 1;
        }
        assert(nodes@.subrange(0, k as int) =~= nodes@);
    }

    /// The land tiles next to a building of player `p`, each once.
    pub fn controlled_tiles(&self, p: usize) -> (v: Vec<u16>)
        requires
            p < self.num_players(),
        ensures
            v@.no_duplicates(),
            forall|x: u16| #[trigger] v@.contains(x) <==> self.next_to_any(self.players@[p as int].settlements@, x)
                || self.next_to_any(self.players@[p as int].cities@, x),
    {
        let mut v: Vec<u16> = Vec::new();
        self.collect_tiles(&self.players[p].settlements, &mut v);
        self.collect_tiles(&self.players[p].cities, &mut v);
        v
    }
}

} // verus!
