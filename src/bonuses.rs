use vstd::prelude::*;

use crate::board::{EdgeId, NodeId};
use crate::placement::{normalize_edge, spec_normalize_edge};
use crate::players::PlayerState;
use crate::rules::{is_unique_leader, unique_leader};
use crate::state::GameState;

verus! {

/// Fewest roads that can earn the longest-road bonus.
pub const LONGEST_ROAD_MIN: u32 = 5;

/// Fewest knights that can earn the largest-army bonus.
pub const LARGEST_ARMY_MIN: u32 = 3;

fn contains_edge(v: &Vec<EdgeId>, e: EdgeId) -> (b: bool)
    ensures
        b == v@.contains(e),
{
    let mut i: usize = 0;
    while i < v.len()
        invariant
            0 <= i <= v@.len(),
            forall|j: int| 0 <= j < i ==> v@[j] != e,
        decreases v@.len() - i,
    {
        let x = v[i];
        if x.0 == e.0 && x.1 == e.1 {
            return true;
        }
        i = i + 1;
    }
    false
}

impl GameState {
    /// The knights each player has played, in seating order.
    pub open spec fn knight_counts(&self) -> Seq<int> {
        self.players@.map_values(|p: PlayerState| p.knights_played as int)
    }

    /// Player `p` may extend a road into node `m`: nobody else has built there.
    pub open spec fn may_enter(&self, p: int, m: NodeId) -> bool {
        !((m as int) < self.node_occupancy@.len() && self.occupied(m as int)
            && crate::state::structure_owner(self.node_occupancy@[m as int].unwrap()) != p)
    }

    /// The longest trail of player `p`'s roads from `start` through its neighbours in
    /// `nbrs` (a prefix of its neighbour list), using no edge of `visited`, at most
    /// `budget` edges long.
    pub open spec fn trail_via(&self, p: int, start: NodeId, nbrs: Seq<NodeId>, visited: Seq<EdgeId>, budget: int) -> int
        decreases budget, nbrs.len() as int,
    {
        if nbrs.len() == 0 || budget <= 0 {
            0
        } else {
            let rest = self.trail_via(p, start, nbrs.drop_last(), visited, budget);
            let m = nbrs.last();
            let e = spec_normalize_edge((start, m));
            let here = if self.may_enter(p, m) && !visited.contains(e) && self.players@[p].roads@.contains(e) {
                1 + self.trail(p, m, visited.push(e), budget - 1)
            } else {
                0
            };
            if here > rest { here } else { rest }
        }
    }

    /// Length of the longest trail of player `p`'s roads that starts at `start`, uses
    /// no edge of `visited`, never enters a node built on by another player, and has
    /// at most `budget` edges.
    pub open spec fn trail(&self, p: int, start: NodeId, visited: Seq<EdgeId>, budget: int) -> int
        decreases budget + 1, 0int,
    {
        if budget <= 0 || (start as int) >= self.map.node_neighbors@.len() {
            0
        } else {
            self.trail_via(p, start, self.map.node_neighbors@[start as int]@, visited, budget)
        }
    }

    pub fn longest_from_node(&self, p: usize, start: NodeId, visited: &mut Vec<EdgeId>, budget: usize) -> (r: usize)
        requires
            self.wf(),
            p < self.num_players(),
        ensures
            r == self.trail(p as int, start, old(visited)@, budget as int),
            r <= budget,
            final(visited)@ == old(visited)@,
        decreases budget,
    {
        if budget == 0 || (start as usize) >= self.map.node_neighbors.len() {
            return 0;
        }
        let list = &self.map.node_neighbors[start as usize];
        let mut best: usize = 0;
        let mut k: usize = 0;
        while k < list.len()
            invariant
                self.wf(),
                p < self.num_players(),
                list == self.map.node_neighbors@[start as int],
                0 <= k <= list@.len(),
                budget > 0,
                best <= budget,
                visited@ == old(visited)@,
                best == self.trail_via(p as int, start, list@.subrange(0, k as int), old(visited)@, budget as int),
            decreases list@.len() - k,
        {
            let neighbor = list[k];
            let ghost before = list@.subrange(0, k as int);
            assert(list@.subrange(0, k + 1).drop_last() =~= before);
            assert(list@.subrange(0, k + 1).last() == neighbor);
            k = k + 1;
            let enter = match self.node_owner(neighbor) {
                Some(o) => o == p,
                None => true,
            };
            let edge = normalize_edge((start, neighbor));
            if !enter || contains_edge(visited, edge) || !contains_edge(&self.players[p].roads, edge) {
                continue;
            }
            visited.push(edge);
            let depth = self.longest_from_node(p, neighbor, visited, budget - 1);
            visited.pop();
            assert(visited@ =~= old(visited)@);
            if depth + 1 > best {
                best = depth + 1;
            }
        }
        assert(list@.subrange(0, k as int) =~= list@);
        best
    }

    /// The longest trail starting at an end of one of `roads`, each search bounded by `budget`.
    pub open spec fn road_best(&self, p: int, roads: Seq<EdgeId>, budget: int) -> int
        decreases roads.len(),
    {
        if roads.len() == 0 {
            0
        } else {
            let rest = self.road_best(p, roads.drop_last(), budget);
            let a = self.trail(p, roads.last().0, Seq::empty(), budget);
            let b = self.trail(p, roads.last().1, Seq::empty(), budget);
            let m = if a > rest { a } else { rest };
            if b > m { b } else { m }
        }
    }

    /// Length of player `p`'s longest road: the longest trail over its roads that
    /// enters no node built on by another player.
    pub open spec fn spec_longest_road(&self, p: int) -> int {
        self.road_best(p, self.players@[p].roads@, self.players@[p].roads@.len() as int)
    }

    /// The longest road of each player, in seating order.
    pub open spec fn road_lengths(&self) -> Seq<int> {
        Seq::new(self.players@.len(), |q: int| self.spec_longest_road(q))
    }

    /// Length of the longest road of player `p`.
    pub fn player_longest_road(&self, p: usize) -> (r: u32)
        requires
            self.wf(),
            p < self.num_players(),
        ensures
            r == self.spec_longest_road(p as int),
            r <= self.players@[p as int].roads@.len(),
    {
        let roads = &self.players[p].roads;
        let budget = roads.len();
        let mut best: usize = 0;
        let mut k: usize = 0;
        while k < roads.len()
            invariant
                self.wf(),
                p < self.num_players(),
                roads == self.players@[p as int].roads,
                budget == roads@.len(),
                0 <= k <= roads@.len(),
                best <= budget,
                best == self.road_best(p as int, roads@.subrange(0, k as int), budget as int),
            decreases roads@.len() - k,
        {
            assert(roads@.subrange(0, k + 1).drop_last() =~= roads@.subrange(0, k as int));
            let (a, b) = roads[k];
            let mut visited: Vec<EdgeId> = Vec::new();
            let la = self.longest_from_node(p, a, &mut visited, budget);
            let lb = self.longest_from_node(p, b, &mut visited, budget);
            if la > best {
                best = la;
            }
            if lb > best {
                best = lb;
            }
            k = k + 1;
        }
        assert(roads@.subrange(0, k as int) =~= roads@);
        assert(self.players@[p as int].wf());
        best as u32
    }

    /// Gives the longest-road bonus to the strict, unique longest road of at least
    /// five edges, and takes it from everyone else.
    pub(crate) fn update_longest_road(&mut self)
        requires
            old(self).wf(),
        ensures
            final(self).wf(),
            final(self).players@.len() == old(self).players@.len(),
            forall|q: int| 0 <= q < old(self).players@.len() ==> #[trigger] final(self).players@[q] == (PlayerState {
                has_longest_road: is_unique_leader(old(self).road_lengths(), q, LONGEST_ROAD_MIN as int),
                ..old(self).players@[q]
            }),
            *final(self) == (GameState { players: final(self).players, ..*old(self) }),
    {
        let mut lens: Vec<u32> = Vec::new();
        let mut q: usize = 0;
        while q < self.players.len()
            invariant
                self.wf(),
                0 <= q <= self.num_players(),
                lens@.len() == q,
                forall|j: int| 0 <= j < q ==> #[trigger] lens@[j] == self.spec_longest_road(j),
            decreases self.num_players() - q,
        {
            lens.push(self.player_longest_road(q));
            q = q + 1;
        }
        let holder = unique_leader(&lens, LONGEST_ROAD_MIN);
        let ghost o = *old(self);
        assert(crate::rules::as_ints(lens@) =~= o.road_lengths());
        let mut q: usize = 0;
        while q < self.players.len()
            invariant
                0 <= q <= self.players@.len(),
                self.players@.len() == o.players@.len(),
                forall|j: int| 0 <= j < q ==> #[trigger] self.players@[j] == (PlayerState {
                    has_longest_road: is_unique_leader(o.road_lengths(), j, LONGEST_ROAD_MIN as int),
                    ..o.players@[j]
                }),
                forall|j: int| q <= j < o.players@.len() ==> #[trigger] self.players@[j] == o.players@[j],
                *self == (GameState { players: self.players, ..o }),
                match holder {
                    Some(i) => is_unique_leader(o.road_lengths(), i as int, LONGEST_ROAD_MIN as int),
                    None => forall|i: int| !#[trigger] is_unique_leader(o.road_lengths(), i, LONGEST_ROAD_MIN as int),
                },
            decreases self.players@.len() - q,
        {
            proof {
                if holder.is_some() && holder != Some(q) {
                    let i = holder.unwrap() as int;
                    assert(o.road_lengths()[q as int] < o.road_lengths()[i]);
                }
            }
            self.players[q].has_longest_road = holder == Some(q);
            q = q + 1;
        }
        proof {
            assert forall|j: int| 0 <= j < self.num_players() implies (#[trigger] self.players@[j]).wf() by {
                assert(o.players@[j].wf());
            }
            assert forall|i: int| 0 <= i < 5 implies #[trigger] self.bank.resources.at(i) + crate::state::player_sum(self.players@, i) == crate::state::SUPPLY_PER_RESOURCE as int by {
                crate::state::lemma_player_sum_resources_eq(o.players@, self.players@, i);
            }
        }
    }

    /// Gives the largest-army bonus to the strict, unique largest army of at least
    /// three knights, and takes it from everyone else.
    pub(crate) fn update_largest_army(&mut self)
        requires
            old(self).wf(),
        ensures
            final(self).wf(),
            final(self).players@.len() == old(self).players@.len(),
            forall|q: int| 0 <= q < old(self).players@.len() ==> #[trigger] final(self).players@[q] == (PlayerState {
                has_largest_army: is_unique_leader(old(self).knight_counts(), q, LARGEST_ARMY_MIN as int),
                ..old(self).players@[q]
            }),
            *final(self) == (GameState { players: final(self).players, ..*old(self) }),
    {
        let mut counts: Vec<u32> = Vec::new();
        let mut q: usize = 0;
        while q < self.players.len()
            invariant
                self.wf(),
                0 <= q <= self.num_players(),
                counts@.len() == q,
                forall|j: int| 0 <= j < q ==> #[trigger] counts@[j] == self.players@[j].knights_played,
            decreases self.num_players() - q,
        {
            counts.push(self.players[q].knights_played as u32);
            q = q + 1;
        }
        let holder = unique_leader(&counts, LARGEST_ARMY_MIN);
        let ghost o = *old(self);
        assert(crate::rules::as_ints(counts@) =~= o.knight_counts());
        let mut q: usize = 0;
        while q < self.players.len()
            invariant
                0 <= q <= self.players@.len(),
                self.players@.len() == o.players@.len(),
                forall|j: int| 0 <= j < q ==> #[trigger] self.players@[j] == (PlayerState {
                    has_largest_army: is_unique_leader(o.knight_counts(), j, LARGEST_ARMY_MIN as int),
                    ..o.players@[j]
                }),
                forall|j: int| q <= j < o.players@.len() ==> #[trigger] self.players@[j] == o.players@[j],
                *self == (GameState { players: self.players, ..o }),
                match holder {
                    Some(i) => is_unique_leader(o.knight_counts(), i as int, LARGEST_ARMY_MIN as int),
                    None => forall|i: int| !#[trigger] is_unique_leader(o.knight_counts(), i, LARGEST_ARMY_MIN as int),
                },
            decreases self.players@.len() - q,
        {
            proof {
                if holder.is_some() && holder != Some(q) {
                    let i = holder.unwrap() as int;
                    assert(o.knight_counts()[q as int] < o.knight_counts()[i]);
                }
            }
            self.players[q].has_largest_army = holder == Some(q);
            q = q + 1;
        }
        proof {
            assert forall|j: int| 0 <= j < self.num_players() implies (#[trigger] self.players@[j]).wf() by {
                assert(o.players@[j].wf());
            }
            assert forall|i: int| 0 <= i < 5 implies #[trigger] self.bank.resources.at(i) + crate::state::player_sum(self.players@, i) == crate::state::SUPPLY_PER_RESOURCE as int by {
                crate::state::lemma_player_sum_resources_eq(o.players@, self.players@, i);
            }
        }
    }
}

} // verus!
