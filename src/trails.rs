use vstd::prelude::*;

use crate::board::{EdgeId, NodeId};
use crate::placement::spec_normalize_edge;
use crate::state::GameState;

verus! {

/// The edges a path of nodes walks along, in order.
pub open spec fn path_edges(path: Seq<NodeId>) -> Seq<EdgeId> {
    Seq::new((path.len() - 1) as nat, |i: int| spec_normalize_edge((path[i], path[i + 1])))
}

impl GameState {
    /// `path` is a trail of player `p`'s roads: each step follows an edge of the board
    /// that is one of its roads, no edge is used twice, and the trail never enters a
    /// node built on by another player.
    pub open spec fn is_road_trail(&self, p: int, path: Seq<NodeId>) -> bool {
        &&& path.len() >= 1
        &&& forall|i: int| 0 <= i < path.len() - 1 ==> {
            &&& (path[i] as int) < self.map.node_neighbors@.len()
            &&& self.map.node_neighbors@[path[i] as int]@.contains(#[trigger] path[i + 1])
            &&& self.players@[p].roads@.contains(spec_normalize_edge((path[i], path[i + 1])))
            &&& self.may_enter(p, path[i + 1])
        }
        &&& path_edges(path).no_duplicates()
    }

    proof fn lemma_trail_via_nonneg(&self, p: int, start: NodeId, nbrs: Seq<NodeId>, visited: Seq<EdgeId>, budget: int)
        ensures
            self.trail_via(p, start, nbrs, visited, budget) >= 0,
        decreases nbrs.len(),
    {
        if nbrs.len() > 0 && budget > 0 {
            self.lemma_trail_via_nonneg(p, start, nbrs.drop_last(), visited, budget);
        }
    }

    proof fn lemma_trail_via_at_least(&self, p: int, start: NodeId, nbrs: Seq<NodeId>, visited: Seq<EdgeId>, budget: int, j: int)
        requires
            0 <= j < nbrs.len(),
            budget > 0,
            self.may_enter(p, nbrs[j]),
            !visited.contains(spec_normalize_edge((start, nbrs[j]))),
            self.players@[p].roads@.contains(spec_normalize_edge((start, nbrs[j]))),
        ensures
            self.trail_via(p, start, nbrs, visited, budget)
                >= 1 + self.trail(p, nbrs[j], visited.push(spec_normalize_edge((start, nbrs[j]))), budget - 1),
        decreases nbrs.len(),
    {
        if j < nbrs.len() - 1 {
            self.lemma_trail_via_at_least(p, start, nbrs.drop_last(), visited, budget, j);
        }
    }

    /// The search from `path[0]` finds at least the length of every trail that avoids
    /// the `visited` edges and fits in the budget.
    pub proof fn lemma_trail_covers(&self, p: int, path: Seq<NodeId>, visited: Seq<EdgeId>, budget: int)
        requires
            self.is_road_trail(p, path),
            path.len() - 1 <= budget,
            forall|i: int| 0 <= i < path.len() - 1 ==> !visited.contains(#[trigger] path_edges(path)[i]),
        ensures
            self.trail(p, path[0], visited, budget) >= path.len() - 1,
        decreases path.len(),
    {
        if path.len() == 1 {
            if budget > 0 && (path[0] as int) < self.map.node_neighbors@.len() {
                self.lemma_trail_via_nonneg(p, path[0], self.map.node_neighbors@[path[0] as int]@, visited, budget);
            }
        } else {
            let start = path[0];
            let n1 = path[1];
            let e0 = spec_normalize_edge((start, n1));
            assert(path_edges(path)[0] == e0);
            let nbrs = self.map.node_neighbors@[start as int]@;
            assert(nbrs.contains(n1));
            let j = nbrs.index_of(n1);
            let rest = path.drop_first();
            assert forall|i: int| 0 <= i < rest.len() - 1 implies {
                &&& (rest[i] as int) < self.map.node_neighbors@.len()
                &&& self.map.node_neighbors@[rest[i] as int]@.contains(#[trigger] rest[i + 1])
                &&& self.players@[p].roads@.contains(spec_normalize_edge((rest[i], rest[i + 1])))
                &&& self.may_enter(p, rest[i + 1])
            } by {
                assert(rest[i] == path[i + 1] && rest[i + 1] == path[i + 2]);
                assert(path[(i + 1) + 1] == path[i + 2]);
            }
            assert(path_edges(rest) =~= path_edges(path).drop_first());
            assert forall|i: int| 0 <= i < rest.len() - 1 implies !visited.push(e0).contains(#[trigger] path_edges(rest)[i]) by {
                assert(path_edges(rest)[i] == path_edges(path)[i + 1]);
                assert(path_edges(path)[i + 1] != path_edges(path)[0]);
            }
            self.lemma_trail_covers(p, rest, visited.push(e0), budget - 1);
            self.lemma_trail_via_at_least(p, start, nbrs, visited, budget, j);
        }
    }

    proof fn lemma_road_best_nonneg(&self, p: int, roads: Seq<EdgeId>, budget: int)
        ensures
            self.road_best(p, roads, budget) >= 0,
        decreases roads.len(),
    {
        if roads.len() > 0 {
            self.lemma_road_best_nonneg(p, roads.drop_last(), budget);
        }
    }

    proof fn lemma_road_best_at_least(&self, p: int, roads: Seq<EdgeId>, budget: int, k: int)
        requires
            0 <= k < roads.len(),
        ensures
            self.road_best(p, roads, budget) >= self.trail(p, roads[k].0, Seq::empty(), budget),
            self.road_best(p, roads, budget) >= self.trail(p, roads[k].1, Seq::empty(), budget),
        decreases roads.len(),
    {
        if k < roads.len() - 1 {
            self.lemma_road_best_at_least(p, roads.drop_last(), budget, k);
        }
    }

    /// Longest road: player `p`'s longest road is at least as long as every trail of
    /// its roads that uses each edge once and enters no node built on by another player.
    pub proof fn lemma_longest_road_covers_trails(&self, p: int, path: Seq<NodeId>)
        requires
            self.wf(),
            0 <= p < self.num_players(),
            self.is_road_trail(p, path),
        ensures
            self.spec_longest_road(p) >= path.len() - 1,
    {
        if path.len() >= 2 {
            let roads = self.players@[p].roads@;
            let edges = path_edges(path);
            assert(roads.no_duplicates()) by {
                assert(self.players@[p].wf());
            }
            assert(edges.to_set().subset_of(roads.to_set())) by {
                assert forall|e: EdgeId| edges.to_set().contains(e) implies roads.to_set().contains(e) by {
                    let i = edges.index_of(e);
                    assert(edges[i] == spec_normalize_edge((path[i], path[i + 1])));
                    assert(self.map.node_neighbors@[path[i] as int]@.contains(path[i + 1]));
                }
            }
            edges.unique_seq_to_set();
            roads.unique_seq_to_set();
            vstd::set_lib::lemma_len_subset(edges.to_set(), roads.to_set());
            let e0 = spec_normalize_edge((path[0], path[1]));
            assert(edges[0] == e0);
            assert(edges.to_set().contains(e0));
            assert(roads.to_set().contains(e0));
            assert(roads.contains(e0));
            let k = roads.index_of(e0);
            assert(roads[k] == e0);
            assert(path[0] == e0.0 || path[0] == e0.1);
            assert(edges.len() == path.len() - 1);
            assert(path.len() - 1 <= roads.len());
            self.lemma_trail_covers(p, path, Seq::empty(), roads.len() as int);
            self.lemma_road_best_at_least(p, roads, roads.len() as int, k);
            assert(self.trail(p, path[0], Seq::empty(), roads.len() as int) >= path.len() - 1);
            assert(self.road_best(p, roads, roads.len() as int) >= path.len() - 1);
        } else {
            self.lemma_road_best_nonneg(p, self.players@[p].roads@, self.players@[p].roads@.len() as int);
        }
    }

    /// A trail of exactly the length the search from `start` reports.
    pub proof fn lemma_trail_witness(&self, p: int, start: NodeId, visited: Seq<EdgeId>, budget: int) -> (path: Seq<NodeId>)
        ensures
            path.len() >= 1,
            path[0] == start,
            self.is_road_trail(p, path),
            path.len() - 1 == self.trail(p, start, visited, budget),
            forall|i: int| 0 <= i < path.len() - 1 ==> !visited.contains(#[trigger] path_edges(path)[i]),
        decreases budget + 1, 0int,
    {
        if budget <= 0 || (start as int) >= self.map.node_neighbors@.len() {
            let path = seq![start];
            assert(path_edges(path) =~= Seq::<EdgeId>::empty());
            path
        } else {
            self.lemma_trail_via_witness(p, start, self.map.node_neighbors@[start as int]@, visited, budget)
        }
    }

    proof fn lemma_trail_via_witness(&self, p: int, start: NodeId, nbrs: Seq<NodeId>, visited: Seq<EdgeId>, budget: int) -> (path: Seq<NodeId>)
        requires
            budget > 0,
            (start as int) < self.map.node_neighbors@.len(),
            forall|j: int| 0 <= j < nbrs.len() ==> self.map.node_neighbors@[start as int]@.contains(#[trigger] nbrs[j]),
        ensures
            path.len() >= 1,
            path[0] == start,
            self.is_road_trail(p, path),
            path.len() - 1 == self.trail_via(p, start, nbrs, visited, budget),
            forall|i: int| 0 <= i < path.len() - 1 ==> !visited.contains(#[trigger] path_edges(path)[i]),
        decreases budget, nbrs.len() as int,
    {
        if nbrs.len() == 0 {
            let path = seq![start];
            assert(path_edges(path) =~= Seq::<EdgeId>::empty());
            path
        } else {
            let rest_v = self.trail_via(p, start, nbrs.drop_last(), visited, budget);
            let m = nbrs.last();
            let e = spec_normalize_edge((start, m));
            let ok = self.may_enter(p, m) && !visited.contains(e) && self.players@[p].roads@.contains(e);
            let here = if ok { 1 + self.trail(p, m, visited.push(e), budget - 1) } else { 0 };
            self.lemma_trail_via_nonneg(p, start, nbrs.drop_last(), visited, budget);
            if here > rest_v {
                assert(ok);
                assert(self.map.node_neighbors@[start as int]@.contains(nbrs[nbrs.len() - 1]));
                let tail = self.lemma_trail_witness(p, m, visited.push(e), budget - 1);
                let path = seq![start] + tail;
                assert(path[1] == m);
                assert(nbrs.contains(m)) by {
                    assert(nbrs[nbrs.len() - 1] == m);
                }
                assert(path_edges(path) =~= seq![e] + path_edges(tail)) by {
                    assert forall|i: int| 0 <= i < path_edges(path).len() implies path_edges(path)[i] == (seq![e] + path_edges(tail))[i] by {
                        if i > 0 {
                            assert(path[i] == tail[i - 1] && path[i + 1] == tail[i]);
                        }
                    }
                }
                assert forall|i: int| 0 <= i < path.len() - 1 implies {
                    &&& (path[i] as int) < self.map.node_neighbors@.len()
                    &&& self.map.node_neighbors@[path[i] as int]@.contains(#[trigger] path[i + 1])
                    &&& self.players@[p].roads@.contains(spec_normalize_edge((path[i], path[i + 1])))
                    &&& self.may_enter(p, path[i + 1])
                } by {
                    if i > 0 {
                        assert(path[i] == tail[i - 1] && path[i + 1] == tail[(i - 1) + 1]);
                        assert(self.map.node_neighbors@[tail[i - 1] as int]@.contains(tail[(i - 1) + 1]));
                    } else {
                        assert(path[0] == start && path[1] == m);
                        assert(self.map.node_neighbors@[start as int]@.contains(m));
                    }
                }
                assert(path_edges(path).no_duplicates()) by {
                    let pe = path_edges(path);
                    assert forall|a: int, b: int| 0 <= a < pe.len() && 0 <= b < pe.len() && a != b implies pe[a] != pe[b] by {
                        if a == 0 {
                            assert(pe[b] == path_edges(tail)[b - 1]);
                            assert(!visited.push(e).contains(path_edges(tail)[b - 1]));
                            assert(visited.push(e)[visited.len() as int] == e);
                        } else if b == 0 {
                            assert(pe[a] == path_edges(tail)[a - 1]);
                            assert(!visited.push(e).contains(path_edges(tail)[a - 1]));
                            assert(visited.push(e)[visited.len() as int] == e);
                        } else {
                            assert(pe[a] == path_edges(tail)[a - 1] && pe[b] == path_edges(tail)[b - 1]);
                        }
                    }
                }
                assert forall|i: int| 0 <= i < path.len() - 1 implies !visited.contains(#[trigger] path_edges(path)[i]) by {
                    if i == 0 {
                        assert(path_edges(path)[0] == e);
                    }
                    if i > 0 {
                        assert(path_edges(path)[i] == path_edges(tail)[i - 1]);
                        assert(!visited.push(e).contains(path_edges(tail)[i - 1]));
                        if visited.contains(path_edges(tail)[i - 1]) {
                            let w = visited.index_of(path_edges(tail)[i - 1]);
                            assert(visited.push(e)[w] == path_edges(tail)[i - 1]);
                        }
                    }
                }
                path
            } else {
                assert forall|j: int| 0 <= j < nbrs.drop_last().len() implies self.map.node_neighbors@[start as int]@.contains(#[trigger] nbrs.drop_last()[j]) by {
                    assert(nbrs.drop_last()[j] == nbrs[j]);
                }
                self.lemma_trail_via_witness(p, start, nbrs.drop_last(), visited, budget)
            }
        }
    }

    proof fn lemma_road_best_witness(&self, p: int, roads: Seq<EdgeId>, budget: int) -> (path: Seq<NodeId>)
        ensures
            self.is_road_trail(p, path),
            path.len() - 1 == self.road_best(p, roads, budget),
        decreases roads.len(),
    {
        if roads.len() == 0 {
            let path = seq![0u16];
            assert(path_edges(path) =~= Seq::<EdgeId>::empty());
            path
        } else {
            let rest = self.road_best(p, roads.drop_last(), budget);
            let a = self.trail(p, roads.last().0, Seq::empty(), budget);
            let b = self.trail(p, roads.last().1, Seq::empty(), budget);
            let m = if a > rest { a } else { rest };
            if b > m {
                self.lemma_trail_witness(p, roads.last().1, Seq::empty(), budget)
            } else if a > rest {
                self.lemma_trail_witness(p, roads.last().0, Seq::empty(), budget)
            } else {
                self.lemma_road_best_witness(p, roads.drop_last(), budget)
            }
        }
    }

    /// Longest road: player `p`'s longest road is the length of one of its trails.
    /// With `lemma_longest_road_covers_trails`, it is the greatest length of a trail
    /// of its roads that uses each edge once and enters no node built on by another player.
    pub proof fn lemma_longest_road_is_a_trail(&self, p: int) -> (path: Seq<NodeId>)
        ensures
            self.is_road_trail(p, path),
            path.len() - 1 == self.spec_longest_road(p),
    {
        self.lemma_road_best_witness(p, self.players@[p].roads@, self.players@[p].roads@.len() as int)
    }
}

} // verus!
