use vstd::prelude::*;

use crate::board::{EdgeId, NodeId};
use crate::players::{PlayerState, MAX_CITIES, MAX_ROADS, MAX_SETTLEMENTS};
use crate::state::{
    lemma_player_sum_resources_eq, player_sum, GameError, GameState, Structure, SUPPLY_PER_RESOURCE,
};

verus! {

broadcast use vstd::seq_lib::group_seq_properties;

/// `e` ends at `n`.
pub open spec fn edge_touches(e: EdgeId, n: NodeId) -> bool {
    e.0 == n || e.1 == n
}

/// The edge with its smaller node first.
pub open spec fn spec_normalize_edge(e: EdgeId) -> EdgeId {
    if e.0 <= e.1 { e } else { (e.1, e.0) }
}

pub fn normalize_edge(e: EdgeId) -> (r: EdgeId)
    ensures
        r == spec_normalize_edge(e),
{
    if e.0 <= e.1 { e } else { (e.1, e.0) }
}

pub fn edge_contains_node(e: EdgeId, n: NodeId) -> (b: bool)
    ensures
        b == (e.0 == n || e.1 == n),
{
    e.0 == n || e.1 == n
}

pub(crate) fn contains_node(v: &Vec<NodeId>, x: NodeId) -> (b: bool)
    ensures
        b == v@.contains(x),
{
    let mut i: usize = 0;
    while i < v.len()
        invariant
            0 <= i <= v@.len(),
            forall|j: int| 0 <= j < i ==> v@[j] != x,
        decreases v@.len() - i,
    {
        if v[i] == x {
            return true;
        }
        i = i + 1;
    }
    false
}

impl GameState {
    /// Some road of player `p` ends at `n`, or `p` has a building on `n`.
    pub open spec fn touches_network(&self, p: int, n: NodeId) -> bool {
        ||| exists|k: int| 0 <= k < self.players@[p].roads@.len() && #[trigger] edge_touches(self.players@[p].roads@[k], n)
        ||| self.players@[p].settlements@.contains(n)
        ||| self.players@[p].cities@.contains(n)
    }

    /// No neighbour of `n` is occupied.
    pub open spec fn neighbors_free(&self, n: int) -> bool {
        forall|m: int| #[trigger] self.map.adjacent(n, m) ==> !self.occupied(m)
    }

    /// Player `p` may place a settlement on `n` (with `net`: only touching its network).
    pub open spec fn settlement_site_ok(&self, p: int, n: NodeId, net: bool) -> bool {
        &&& self.players@[p].settlements@.len() < MAX_SETTLEMENTS
        &&& self.map.land_nodes@.contains(n)
        &&& !self.occupied(n as int)
        &&& self.neighbors_free(n as int)
        &&& (net ==> self.touches_network(p, n))
    }

    /// Index in `road_occupancy` of the record for `e`, if any.
    pub open spec fn road_record(&self, e: EdgeId) -> bool {
        exists|k: int| 0 <= k < self.road_occupancy@.len() && (#[trigger] self.road_occupancy@[k]).0 == e
    }

    /// Player `p` may place a road on `e` (with `net`: only touching its network).
    pub open spec fn road_site_ok(&self, p: int, e: EdgeId, net: bool) -> bool {
        let f = spec_normalize_edge(e);
        &&& self.players@[p].roads@.len() < MAX_ROADS
        &&& !self.road_record(f)
        &&& self.map.adjacent(f.0 as int, f.1 as int)
        &&& (net ==> self.touches_network(p, f.0) || self.touches_network(p, f.1))
    }

    /// Owner of the node's building, if any.
    pub fn node_owner(&self, n: NodeId) -> (r: Option<usize>)
        requires
            self.wf(),
        ensures
            r.is_some() <==> ((n as int) < self.node_occupancy@.len() && self.occupied(n as int)),
            r.is_some() ==> r.unwrap() == crate::state::structure_owner(self.node_occupancy@[n as int].unwrap()) && r.unwrap() < self.num_players(),
    {
        if (n as usize) < self.node_occupancy.len() {
            match self.node_occupancy[n as usize] {
                Some(Structure::Settlement { player }) => Some(player),
                Some(Structure::City { player }) => Some(player),
                None => None,
            }
        } else {
            None
        }
    }

    /// Owner of the road on `e` (given with its smaller node first), if any.
    pub fn road_owner(&self, e: EdgeId) -> (r: Option<usize>)
        requires
            self.wf(),
        ensures
            r.is_some() <==> self.road_record(e),
            r.is_some() ==> self.road_occupancy@.contains((e, r.unwrap())) && r.unwrap() < self.num_players(),
    {
        let mut k: usize = 0;
        while k < self.road_occupancy.len()
            invariant
                self.wf(),
                0 <= k <= self.road_occupancy@.len(),
                forall|j: int| 0 <= j < k ==> (#[trigger] self.road_occupancy@[j]).0 != e,
            decreases self.road_occupancy@.len() - k,
        {
            let rec = self.road_occupancy[k];
            if rec.0.0 == e.0 && rec.0.1 == e.1 {
                assert(rec.0 == e);
                assert(self.road_occupancy@[k as int] == rec);
                assert(self.road_occupancy@.contains((e, rec.1)));
                assert(rec.1 < self.num_players());
                return Some(rec.1);
            }
            k = k + 1;
        }
        None
    }

    pub(crate) fn neighbors_unoccupied(&self, n: NodeId) -> (b: bool)
        requires
            self.wf(),
            (n as int) < self.map.num_nodes(),
        ensures
            b == self.neighbors_free(n as int),
    {
        let list = &self.map.node_neighbors[n as usize];
        let mut k: usize = 0;
        while k < list.len()
            invariant
                self.wf(),
                (n as int) < self.map.num_nodes(),
                list == self.map.node_neighbors@[n as int],
                0 <= k <= list@.len(),
                forall|j: int| 0 <= j < k ==> !self.occupied(#[trigger] list@[j] as int),
            decreases list@.len() - k,
        {
            let m = list[k];
            assert(self.map.is_node(m as int));
            if self.node_occupancy[m as usize].is_some() {
                assert(list@.contains(m));
                assert(self.map.adjacent(n as int, m as int));
                return false;
            }
            k = k + 1;
        }
        assert forall|m: int| #[trigger] self.map.adjacent(n as int, m) implies !self.occupied(m) by {
            let j = list@.index_of(m as NodeId);
            assert(list@[j] == m as NodeId);
        }
        true
    }

    fn node_touches_network(&self, p: usize, n: NodeId) -> (b: bool)
        requires
            self.wf(),
            p < self.num_players(),
        ensures
            b == self.touches_network(p as int, n),
    {
        let roads = &self.players[p].roads;
        let mut k: usize = 0;
        while k < roads.len()
            invariant
                0 <= k <= roads@.len(),
                roads == self.players@[p as int].roads,
                forall|j: int| 0 <= j < k ==> !#[trigger] edge_touches(roads@[j], n),
            decreases roads@.len() - k,
        {
            if edge_contains_node(roads[k], n) {
                assert(edge_touches(self.players@[p as int].roads@[k as int], n));
                return true;
            }
            k = k + 1;
        }
        contains_node(&self.players[p].settlements, n) || contains_node(&self.players[p].cities, n)
    }

    pub fn validate_settlement_location(&self, p: usize, n: NodeId, net: bool) -> (r: Result<(), GameError>)
        requires
            self.wf(),
            p < self.num_players(),
        ensures
            r.is_ok() <==> self.settlement_site_ok(p as int, n, net),
            r.is_ok() ==> (n as int) < self.map.num_nodes(),
            self.players@[p as int].settlements@.len() < MAX_SETTLEMENTS && self.map.land_nodes@.contains(n) && self.occupied(n as int)
                ==> r == Err::<(), GameError>(GameError::NodeOccupied(n)),
            self.players@[p as int].settlements@.len() < MAX_SETTLEMENTS && self.map.land_nodes@.contains(n) && !self.occupied(n as int)
                && !self.neighbors_free(n as int) ==> r == Err::<(), GameError>(GameError::DistanceRuleViolation),
    {
        if self.players[p].settlement_limit_reached() {
            return Err(GameError::IllegalAction);
        }
        if !contains_node(&self.map.land_nodes, n) {
            return Err(GameError::IllegalAction);
        }
        let ghost idx = self.map.land_nodes@.index_of(n);
        assert(self.map.is_node(self.map.land_nodes@[idx] as int));
        if self.node_occupancy[n as usize].is_some() {
            return Err(GameError::NodeOccupied(n));
        }
        if !self.neighbors_unoccupied(n) {
            return Err(GameError::DistanceRuleViolation);
        }
        if net && !self.node_touches_network(p, n) {
            return Err(GameError::MustConnectToNetwork);
        }
        Ok(())
    }

    pub fn validate_road_location(&self, p: usize, e: EdgeId, net: bool) -> (r: Result<(), GameError>)
        requires
            self.wf(),
            p < self.num_players(),
        ensures
            r.is_ok() <==> self.road_site_ok(p as int, e, net),
            self.players@[p as int].roads@.len() < MAX_ROADS && self.road_record(spec_normalize_edge(e))
                ==> r == Err::<(), GameError>(GameError::EdgeOccupied),
    {
        if self.players[p].road_limit_reached() {
            return Err(GameError::IllegalAction);
        }
        let f = normalize_edge(e);
        if self.road_owner(f).is_some() {
            return Err(GameError::EdgeOccupied);
        }
        if (f.0 as usize) >= self.map.node_neighbors.len() || !contains_node(&self.map.node_neighbors[f.0 as usize], f.1) {
            return Err(GameError::EdgeNotFound);
        }
        if net && !self.node_touches_network(p, f.0) && !self.node_touches_network(p, f.1) {
            return Err(GameError::MustConnectToNetwork);
        }
        Ok(())
    }
}

impl GameState {
    /// Puts a settlement of player `p` on `n`, recording it on both sides.
    pub(crate) fn place_settlement(&mut self, p: usize, n: NodeId)
        requires
            old(self).wf(),
            p < old(self).num_players(),
            old(self).settlement_site_ok(p as int, n, false),
        ensures
            final(self).wf(),
            final(self).players@.len() == old(self).players@.len(),
            final(self).players@[p as int].settlements@ == old(self).players@[p as int].settlements@.push(n),
            final(self).node_occupancy@ == old(self).node_occupancy@.update(n as int, Some(Structure::Settlement { player: p })),
            forall|q: int| 0 <= q < old(self).players@.len() && q != p ==> #[trigger] final(self).players@[q] == old(self).players@[q],
            final(self).players@[p as int] == (PlayerState { settlements: final(self).players@[p as int].settlements, ..old(self).players@[p as int] }),
            *final(self) == (GameState { players: final(self).players, node_occupancy: final(self).node_occupancy, ..*old(self) }),
    {
        let ghost o = *old(self);
        let ghost idx = self.map.land_nodes@.index_of(n);
        assert(self.map.is_node(self.map.land_nodes@[idx] as int));
        assert(!self.players@[p as int].settlements@.contains(n));
        assert(!self.players@[p as int].cities@.contains(n));
        self.players[p].settlements.push(n);
        self.node_occupancy.set(n as usize, Some(Structure::Settlement { player: p }));
        proof {
            assert forall|i: int| 0 <= i < 5 implies #[trigger] self.bank.resources.at(i) + player_sum(self.players@, i) == SUPPLY_PER_RESOURCE as int by {
                lemma_player_sum_resources_eq(o.players@, self.players@, i);
            }
            assert(self.conserved());
            assert forall|q: int| 0 <= q < self.num_players() implies (#[trigger] self.players@[q]).wf() by {
                assert(o.players@[q].wf());
                if q == p as int {
                    assert forall|m: NodeId| self.players@[q].settlements@.contains(m) implies !self.players@[q].cities@.contains(m) by {
                        if m != n {
                            assert(o.players@[q].settlements@.contains(m));
                        }
                    }
                }
            }
            assert forall|q: int, m: NodeId| 0 <= q < self.num_players() implies
                (#[trigger] self.players@[q].settlements@.contains(m) <==> ((m as int) < self.node_occupancy@.len()
                    && self.node_occupancy@[m as int] == Some(Structure::Settlement { player: q as usize }))) by {
                if q == p as int && m != n {
                    assert(self.players@[q].settlements@.contains(m) == o.players@[q].settlements@.contains(m));
                }
                if q != p as int && m == n {
                    assert(!o.players@[q].settlements@.contains(m));
                }
            }
            assert forall|q: int, m: NodeId| 0 <= q < self.num_players() implies
                (#[trigger] self.players@[q].cities@.contains(m) <==> ((m as int) < self.node_occupancy@.len()
                    && self.node_occupancy@[m as int] == Some(Structure::City { player: q as usize }))) by {
                assert(self.players@[q].cities == o.players@[q].cities);
                if m == n {
                    assert(!o.players@[q].cities@.contains(m));
                }
            }
            assert forall|a: int, b: int| #[trigger] self.map.adjacent(a, b) && self.occupied(a) implies !self.occupied(b) by {
                if a == n as int {
                    assert(o.neighbors_free(n as int));
                    assert(!o.occupied(b));
                } else if b == n as int {
                    assert(self.map.adjacent(b, a));
                    assert(o.neighbors_free(n as int));
                } else {
                    assert(o.map.adjacent(a, b));
                }
            }
        }
    }

    /// Turns the settlement of player `p` on `n` into a city.
    pub(crate) fn upgrade_to_city(&mut self, p: usize, n: NodeId)
        requires
            old(self).wf(),
            p < old(self).num_players(),
            old(self).players@[p as int].settlements@.contains(n),
            old(self).players@[p as int].cities@.len() < MAX_CITIES,
        ensures
            final(self).wf(),
            final(self).players@.len() == old(self).players@.len(),
            final(self).players@[p as int].settlements@ == old(self).players@[p as int].settlements@.remove(old(self).players@[p as int].settlements@.index_of(n)),
            final(self).players@[p as int].cities@ == old(self).players@[p as int].cities@.push(n),
            final(self).node_occupancy@ == old(self).node_occupancy@.update(n as int, Some(Structure::City { player: p })),
            forall|q: int| 0 <= q < old(self).players@.len() && q != p ==> #[trigger] final(self).players@[q] == old(self).players@[q],
            final(self).players@[p as int] == (PlayerState {
                settlements: final(self).players@[p as int].settlements,
                cities: final(self).players@[p as int].cities,
                ..old(self).players@[p as int]
            }),
            *final(self) == (GameState { players: final(self).players, node_occupancy: final(self).node_occupancy, ..*old(self) }),
    {
        let ghost o = *old(self);
        let ghost sett = self.players@[p as int].settlements@;
        let mut k: usize = 0;
        while k < self.players[p].settlements.len() && self.players[p].settlements[k] != n
            invariant
                *self == o,
                p < o.num_players(),
                sett == o.players@[p as int].settlements@,
                sett.contains(n),
                0 <= k <= sett.len(),
                forall|j: int| 0 <= j < k ==> sett[j] != n,
            decreases sett.len() - k,
        {
            k = k + 1;
        }
        assert(k < sett.len() && sett[k as int] == n) by {
            if k == sett.len() {
                let j = sett.index_of(n);
                assert(sett[j] == n);
            }
        }
        assert(sett.index_of(n) == k as int) by {
            assert(sett.no_duplicates());
            let j = sett.index_of(n);
            assert(sett[j] == n);
        }
        self.players[p].settlements.remove(k);
        self.players[p].cities.push(n);
        self.node_occupancy.set(n as usize, Some(Structure::City { player: p }));
        proof {
            assert forall|i: int| 0 <= i < 5 implies #[trigger] self.bank.resources.at(i) + player_sum(self.players@, i) == SUPPLY_PER_RESOURCE as int by {
                lemma_player_sum_resources_eq(o.players@, self.players@, i);
            }
            assert(self.conserved());
            let newsett = self.players@[p as int].settlements@;
            assert(newsett == sett.remove(k as int));
            assert forall|m: NodeId| #[trigger] newsett.contains(m) <==> (sett.contains(m) && m != n) by {
                if newsett.contains(m) {
                    let j = newsett.index_of(m);
                    if j < k {
                        assert(sett[j] == m);
                    } else {
                        assert(sett[j + 1] == m);
                    }
                }
                if sett.contains(m) && m != n {
                    let j = sett.index_of(m);
                    if j < k {
                        assert(newsett[j] == m);
                    } else {
                        assert(newsett[j - 1] == m);
                    }
                }
            }
            assert(newsett.no_duplicates()) by {
                assert forall|i: int, j: int| 0 <= i < newsett.len() && 0 <= j < newsett.len() && i != j implies newsett[i] != newsett[j] by {
                    let ii = if i < k { i } else { i + 1 };
                    let jj = if j < k { j } else { j + 1 };
                    assert(newsett[i] == sett[ii]);
                    assert(newsett[j] == sett[jj]);
                }
            }
            assert forall|q: int| 0 <= q < self.num_players() implies (#[trigger] self.players@[q]).wf() by {
                assert(o.players@[q].wf());
                if q == p as int {
                    assert(!o.players@[q].cities@.contains(n));
                    assert forall|m: NodeId| self.players@[q].settlements@.contains(m) implies !self.players@[q].cities@.contains(m) by {
                        assert(sett.contains(m));
                    }
                }
            }
            assert forall|q: int, m: NodeId| 0 <= q < self.num_players() implies
                (#[trigger] self.players@[q].settlements@.contains(m) <==> ((m as int) < self.node_occupancy@.len()
                    && self.node_occupancy@[m as int] == Some(Structure::Settlement { player: q as usize }))) by {
                if q != p as int && m == n {
                    assert(!o.players@[q].settlements@.contains(m));
                }
            }
            assert forall|q: int, m: NodeId| 0 <= q < self.num_players() implies
                (#[trigger] self.players@[q].cities@.contains(m) <==> ((m as int) < self.node_occupancy@.len()
                    && self.node_occupancy@[m as int] == Some(Structure::City { player: q as usize }))) by {
                if q == p as int && m != n {
                    assert(self.players@[q].cities@.contains(m) == o.players@[q].cities@.contains(m));
                }
                if q != p as int && m == n {
                    assert(!o.players@[q].cities@.contains(m));
                }
            }
            assert forall|a: int, b: int| #[trigger] self.map.adjacent(a, b) && self.occupied(a) implies !self.occupied(b) by {
                assert(o.occupied(n as int));
                assert(o.map.adjacent(a, b));
                if a != n as int {
                    assert(o.occupied(a));
                }
            }
        }
    }

    /// Puts a road of player `p` on `e`, recording it on both sides.
    pub(crate) fn place_road(&mut self, p: usize, e: EdgeId)
        requires
            old(self).wf(),
            p < old(self).num_players(),
            old(self).road_site_ok(p as int, e, false),
        ensures
            final(self).wf(),
            final(self).players@.len() == old(self).players@.len(),
            final(self).players@[p as int].roads@ == old(self).players@[p as int].roads@.push(spec_normalize_edge(e)),
            final(self).road_occupancy@ == old(self).road_occupancy@.push((spec_normalize_edge(e), p)),
            forall|q: int| 0 <= q < old(self).players@.len() && q != p ==> #[trigger] final(self).players@[q] == old(self).players@[q],
            final(self).players@[p as int] == (PlayerState { roads: final(self).players@[p as int].roads, ..old(self).players@[p as int] }),
            *final(self) == (GameState { players: final(self).players, road_occupancy: final(self).road_occupancy, ..*old(self) }),
    {
        let ghost o = *old(self);
        let f = normalize_edge(e);
        assert(!self.players@[p as int].roads@.contains(f)) by {
            if self.players@[p as int].roads@.contains(f) {
                assert(self.road_occupancy@.contains((f, p)));
                let k = self.road_occupancy@.index_of((f, p));
                assert(self.road_occupancy@[k].0 == f);
            }
        }
        self.players[p].roads.push(f);
        self.road_occupancy.push((f, p));
        proof {
            assert forall|i: int| 0 <= i < 5 implies #[trigger] self.bank.resources.at(i) + player_sum(self.players@, i) == SUPPLY_PER_RESOURCE as int by {
                lemma_player_sum_resources_eq(o.players@, self.players@, i);
            }
            assert(self.conserved());
            assert forall|q: int| 0 <= q < self.num_players() implies (#[trigger] self.players@[q]).wf() by {
                assert(o.players@[q].wf());
            }
            let ro = self.road_occupancy@;
            assert forall|k1: int, k2: int| 0 <= k1 < ro.len() && 0 <= k2 < ro.len() && k1 != k2 implies #[trigger] ro[k1].0 != #[trigger] ro[k2].0 by {
                if k1 == ro.len() - 1 {
                    assert(o.road_occupancy@[k2].0 == ro[k2].0);
                } else if k2 == ro.len() - 1 {
                    assert(o.road_occupancy@[k1].0 == ro[k1].0);
                } else {
                    assert(o.road_occupancy@[k1] == ro[k1]);
                    assert(o.road_occupancy@[k2] == ro[k2]);
                }
            }
            assert forall|k: int| 0 <= k < ro.len() implies (#[trigger] ro[k]).1 < self.num_players() by {
                if k < ro.len() - 1 {
                    assert(o.road_occupancy@[k] == ro[k]);
                }
            }
            assert forall|q: int, x: EdgeId| 0 <= q < self.num_players() implies
                (#[trigger] self.players@[q].roads@.contains(x) <==> ro.contains((x, q as usize))) by {
                let old_ro = o.road_occupancy@;
                assert(o.players@[q].roads@.contains(x) <==> old_ro.contains((x, q as usize)));
                if ro.contains((x, q as usize)) {
                    let k = ro.index_of((x, q as usize));
                    if k < old_ro.len() {
                        assert(old_ro[k] == (x, q as usize));
                    }
                }
                if old_ro.contains((x, q as usize)) {
                    let k = old_ro.index_of((x, q as usize));
                    assert(ro[k] == (x, q as usize));
                }
                if q == p as int {
                    if self.players@[q].roads@.contains(x) && x != f {
                        let k = self.players@[q].roads@.index_of(x);
                        assert(o.players@[q].roads@[k] == x);
                    }
                    if o.players@[q].roads@.contains(x) {
                        let k = o.players@[q].roads@.index_of(x);
                        assert(self.players@[q].roads@[k] == x);
                    }
                    assert(ro[ro.len() - 1] == (f, p));
                    assert(self.players@[q].roads@[self.players@[q].roads@.len() - 1] == f);
                }
            }
        }
    }
}

} // verus!
