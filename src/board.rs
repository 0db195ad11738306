use vstd::prelude::*;

use crate::coords::Direction;
use crate::types::Resource;

verus! {

pub type NodeId = u16;

/// An edge, given by its two end nodes.
pub type EdgeId = (NodeId, NodeId);

/// Corner slots of a tile, in the order North, NorthEast, SouthEast, South, SouthWest, NorthWest.
pub type TileNodes = [NodeId; 6];

#[derive(Debug, Clone, Copy, PartialEq, Eq)]
pub struct LandTile {
    pub id: u16,
    /// `None` for the desert.
    pub resource: Option<Resource>,
    pub number: Option<u8>,
    pub nodes: TileNodes,
}

#[derive(Debug, Clone, Copy, PartialEq, Eq)]
pub struct Port {
    pub id: u16,
    /// `None` for a generic three-for-one port.
    pub resource: Option<Resource>,
    pub direction: Direction,
    pub nodes: TileNodes,
}

#[derive(Debug, Clone, Copy, PartialEq, Eq)]
pub struct Water {
    pub nodes: TileNodes,
}

#[derive(Debug, Clone, Copy, PartialEq, Eq)]
pub enum Tile {
    Land(LandTile),
    Port(Port),
    Water(Water),
}

impl Tile {
    pub open spec fn spec_nodes(self) -> TileNodes {
        match self {
            Tile::Land(t) => t.nodes,
            Tile::Port(p) => p.nodes,
            Tile::Water(w) => w.nodes,
        }
    }

    pub fn nodes(&self) -> (n: TileNodes)
        ensures
            n == self.spec_nodes(),
    {
        match self {
            Tile::Land(t) => t.nodes,
            Tile::Port(p) => p.nodes,
            Tile::Water(w) => w.nodes,
        }
    }

    /// The six sides of the tile, each joining two consecutive corners.
    pub fn edges(&self) -> (e: Vec<EdgeId>)
        ensures
            e@.len() == 6,
            forall|k: int| 0 <= k < 6 ==> #[trigger] e@[k] == (self.spec_nodes()@[k], self.spec_nodes()@[(k + 1) % 6]),
    {
        let n = self.nodes();
        let mut e: Vec<EdgeId> = Vec::new();
        let mut k: usize = 0;
        while k < 6
            invariant
                0 <= k <= 6,
                n == self.spec_nodes(),
                e@.len() == k,
                forall|j: int| 0 <= j < k ==> #[trigger] e@[j] == (n@[j], n@[(j + 1) % 6]),
            decreases 6 - k,
        {
            e.push((n[k], n[(k + 1) % 6]));
            k = k + 1;
        }
        e
    }
}

/// The corner slots (as positions in `TileNodes`) that a port facing `d` serves.
pub open spec fn spec_port_slots(d: Direction) -> (usize, usize) {
    match d {
        Direction::West => (5, 4),
        Direction::NorthWest => (0, 5),
        Direction::NorthEast => (1, 0),
        Direction::East => (2, 1),
        Direction::SouthEast => (3, 2),
        Direction::SouthWest => (4, 3),
    }
}

fn port_slots(d: Direction) -> (s: (usize, usize))
    ensures
        s == spec_port_slots(d),
        s.0 < 6 && s.1 < 6,
{
    match d {
        Direction::West => (5, 4),
        Direction::NorthWest => (0, 5),
        Direction::NorthEast => (1, 0),
        Direction::East => (2, 1),
        Direction::SouthEast => (3, 2),
        Direction::SouthWest => (4, 3),
    }
}

/// The board as a graph: land tiles, nodes, their neighbours and ports.
#[derive(Debug, Clone)]
pub struct CatanMap {
    pub land_tiles: Vec<LandTile>,
    pub ports: Vec<Port>,
    /// Nodes touching at least one land tile, each once.
    pub land_nodes: Vec<NodeId>,
    /// For each node id, the nodes joined to it by an edge.
    pub node_neighbors: Vec<Vec<NodeId>>,
    /// For each node id, the ids of the land tiles it touches.
    pub adjacent_tiles: Vec<Vec<u16>>,
    /// Every edge once, with the smaller node first.
    pub edges: Vec<EdgeId>,
    /// Port nodes with the resource the port trades (`None`: generic port).
    pub port_nodes: Vec<(Option<Resource>, NodeId)>,
}

impl CatanMap {
    pub open spec fn num_nodes(&self) -> nat {
        self.node_neighbors@.len()
    }

    pub open spec fn is_node(&self, n: int) -> bool {
        0 <= n < self.num_nodes()
    }

    /// `a` and `b` are joined by an edge.
    pub open spec fn adjacent(&self, a: int, b: int) -> bool {
        self.is_node(a) && self.node_neighbors@[a]@.contains(b as NodeId) && 0 <= b <= u16::MAX
    }

    pub open spec fn wf(&self) -> bool {
        &&& self.num_nodes() <= u16::MAX as nat + 1
        &&& self.adjacent_tiles@.len() == self.num_nodes()
        &&& forall|a: int, k: int| #![trigger self.node_neighbors@[a]@[k]]
            self.is_node(a) && 0 <= k < self.node_neighbors@[a]@.len() ==> self.is_node(self.node_neighbors@[a]@[k] as int)
        &&& forall|a: int, b: int| #[trigger] self.adjacent(a, b) ==> self.adjacent(b, a) && a != b
        &&& forall|i: int| 0 <= i < self.land_nodes@.len() ==> self.is_node(#[trigger] self.land_nodes@[i] as int)
        &&& forall|i: int| 0 <= i < self.port_nodes@.len() ==> self.is_node(#[trigger] self.port_nodes@[i].1 as int)
        &&& forall|i: int, k: int| 0 <= i < self.land_tiles@.len() && 0 <= k < 6 ==> self.is_node(#[trigger] self.land_tiles@[i].nodes@[k] as int)
        &&& forall|i: int| 0 <= i < self.edges@.len() ==> self.adjacent(#[trigger] self.edges@[i].0 as int, self.edges@[i].1 as int) && self.edges@[i].0 < self.edges@[i].1
    }
}

/// Symmetric, loop-free, in-range neighbour lists over `n` nodes.
pub open spec fn neighbor_lists_ok(nb: Seq<Vec<NodeId>>, n: nat) -> bool {
    &&& nb.len() == n
    &&& forall|a: int, k: int| #![trigger nb[a]@[k]] 0 <= a < n && 0 <= k < nb[a]@.len() ==> (nb[a]@[k] as int) < n
    &&& forall|a: int, b: NodeId| 0 <= a < n && #[trigger] nb[a]@.contains(b) ==> nb[b as int]@.contains(a as NodeId) && a != b as int
}

fn vec_contains_node(v: &Vec<NodeId>, x: NodeId) -> (b: bool)
    ensures
        b == v@.contains(x),
{
    let mut i: usize = 0;
    while i < v.len()
        invariant
            0 <= i <= v@.len(),
            forall|j: int| 0 <= j < i ==> v@[j] != x,
        decreases v@.len() - i,
    {
        if v[i] == x {
            return true;
        }
        i = i + 1;
    }
    false
}

/// Adds `b` to the list of `a` unless it is there already.
fn add_neighbor(nb: &mut Vec<Vec<NodeId>>, a: usize, b: NodeId)
    requires
        a < old(nb)@.len(),
    ensures
        final(nb)@.len() == old(nb)@.len(),
        forall|i: int| 0 <= i < old(nb)@.len() && i != a ==> #[trigger] final(nb)@[i] == old(nb)@[i],
        final(nb)@[a as int]@ == if old(nb)@[a as int]@.contains(b) { old(nb)@[a as int]@ } else { old(nb)@[a as int]@.push(b) },
{
    let mut inner = nb[a].clone();
    assert(inner@ =~= nb@[a as int]@);
    if !vec_contains_node(&inner, b) {
        inner.push(b);
    }
    nb.set(a, inner);
}

/// Joins `a` and `b` in both directions.
fn connect(nb: &mut Vec<Vec<NodeId>>, a: NodeId, b: NodeId, Ghost(n): Ghost<nat>)
    requires
        neighbor_lists_ok(old(nb)@, n),
        (a as int) < n,
        (b as int) < n,
        n <= u16::MAX as nat + 1,
        a != b,
    ensures
        neighbor_lists_ok(final(nb)@, n),
        final(nb)@[a as int]@.contains(b),
        forall|x: int, y: NodeId| 0 <= x < n && #[trigger] old(nb)@[x]@.contains(y) ==> final(nb)@[x]@.contains(y),
{
    add_neighbor(nb, a as usize, b);
    add_neighbor(nb, b as usize, a);
    let ghost o = old(nb)@;
    let ghost f = nb@;
    assert(f[a as int]@.contains(b)) by {
        if !o[a as int]@.contains(b) {
            assert(o[a as int]@.push(b)[o[a as int]@.len() as int] == b);
        }
    }
    assert forall|x: int, y: NodeId| 0 <= x < n && #[trigger] o[x]@.contains(y) implies f[x]@.contains(y) by {
        if x == a as int {
            if !o[x]@.contains(b) {
                assert(o[x]@.push(b)[o[x]@.index_of(y)] == y);
            }
        }
        if x == b as int {
            if !o[x]@.contains(a) {
                assert(o[x]@.push(a)[o[x]@.index_of(y)] == y);
            }
        }
    }
    assert forall|x: int, k: int| #![trigger f[x]@[k]] 0 <= x < n && 0 <= k < f[x]@.len() implies (f[x]@[k] as int) < n by {
        if k < o[x]@.len() {
            assert(f[x]@[k] == o[x]@[k]);
        }
    }
    assert forall|x: int, y: NodeId| 0 <= x < n && #[trigger] f[x]@.contains(y) implies f[y as int]@.contains(x as NodeId) && x != y as int by {
        let k = f[x]@.index_of(y);
        if k < o[x]@.len() {
            assert(o[x]@[k] == y);
            assert(o[x]@.contains(y));
            assert(o[y as int]@.contains(x as NodeId));
            assert(f[y as int]@.contains(x as NodeId));
        } else {
            if x == a as int {
                if !o[x]@.contains(b) {
                    assert(y == b);
                }
            }
            if x == b as int {
                if !o[x]@.contains(a) {
                    assert(y == a);
                    assert(f[a as int]@.contains(b));
                }
            }
            if x == a as int && y == b {
                if !o[b as int]@.contains(a) {
                    assert(o[b as int]@.push(a)[o[b as int]@.len() as int] == a);
                }
                assert(f[b as int]@.contains(a));
            }
        }
    }
    assert(f[a as int]@.contains(b)) by {
        if !o[a as int]@.contains(b) {
            assert(o[a as int]@.push(b)[o[a as int]@.len() as int] == b);
        }
    }
}

/// Every side of a tile with the corners `nodes` joins its two corners in `nb`.
pub open spec fn sides_linked(nb: Seq<Vec<NodeId>>, nodes: TileNodes) -> bool {
    forall|k: int| 0 <= k < 6 && nodes@[k] != nodes@[(k + 1) % 6] ==> #[trigger] nb[nodes@[k] as int]@.contains(nodes@[(k + 1) % 6])
}

/// Every link of `old` is still in `new`.
pub open spec fn keeps_links(old: Seq<Vec<NodeId>>, new: Seq<Vec<NodeId>>, n: nat) -> bool {
    forall|x: int, y: NodeId| 0 <= x < n && #[trigger] old[x]@.contains(y) ==> new[x]@.contains(y)
}

proof fn lemma_sides_linked_kept(old: Seq<Vec<NodeId>>, new: Seq<Vec<NodeId>>, n: nat, nodes: TileNodes)
    requires
        sides_linked(old, nodes),
        keeps_links(old, new, n),
        forall|k: int| 0 <= k < 6 ==> (#[trigger] nodes@[k] as int) < n,
    ensures
        sides_linked(new, nodes),
{
    assert forall|k: int| 0 <= k < 6 && nodes@[k] != nodes@[(k + 1) % 6] implies #[trigger] new[nodes@[k] as int]@.contains(nodes@[(k + 1) % 6]) by {
        assert(old[nodes@[k] as int]@.contains(nodes@[(k + 1) % 6]));
    }
}

/// Joins the two corners of every side of a tile.
fn link_sides(nb: &mut Vec<Vec<NodeId>>, nodes: TileNodes, Ghost(n): Ghost<nat>)
    requires
        neighbor_lists_ok(old(nb)@, n),
        n <= u16::MAX as nat + 1,
        forall|k: int| 0 <= k < 6 ==> (#[trigger] nodes@[k] as int) < n,
    ensures
        neighbor_lists_ok(final(nb)@, n),
        keeps_links(old(nb)@, final(nb)@, n),
        sides_linked(final(nb)@, nodes),
{
    let mut k: usize = 0;
    while k < 6
        invariant
            0 <= k <= 6,
            n <= u16::MAX as nat + 1,
            forall|k2: int| 0 <= k2 < 6 ==> (#[trigger] nodes@[k2] as int) < n,
            neighbor_lists_ok(nb@, n),
            keeps_links(old(nb)@, nb@, n),
            forall|k2: int| 0 <= k2 < k && nodes@[k2] != nodes@[(k2 + 1) % 6] ==> #[trigger] nb@[nodes@[k2] as int]@.contains(nodes@[(k2 + 1) % 6]),
        decreases 6 - k,
    {
        let a = nodes[k];
        let b = nodes[(k + 1) % 6];
        let ghost before = nb@;
        if a != b {
            connect(nb, a, b, Ghost(n));
        }
        proof {
            assert forall|x: int, y: NodeId| 0 <= x < n && #[trigger] old(nb)@[x]@.contains(y) implies nb@[x]@.contains(y) by {
                assert(before[x]@.contains(y));
            }
            assert forall|k2: int| 0 <= k2 < k + 1 && nodes@[k2] != nodes@[(k2 + 1) % 6] implies #[trigger] nb@[nodes@[k2] as int]@.contains(nodes@[(k2 + 1) % 6]) by {
                if k2 < k {
                    assert(before[nodes@[k2] as int]@.contains(nodes@[(k2 + 1) % 6]));
                }
            }
        }
        k = k + 1;
    }
}

impl CatanMap {
    /// Derives the board graph from its tiles: every tile side is an edge, land tiles
    /// give land nodes and tile adjacency, ports give their two served nodes.
    pub fn from_tiles(tiles: Vec<Tile>) -> (m: CatanMap)
        ensures
            m.wf(),
            forall|j: int| 0 <= j < tiles@.len() ==> sides_linked(m.node_neighbors@, #[trigger] tiles@[j].spec_nodes()),
            forall|j: int| 0 <= j < tiles@.len() ==> (#[trigger] tiles@[j] matches Tile::Land(l) ==> m.land_tiles@.contains(l)),
    {
        let mut max_id: usize = 0;
        let mut i: usize = 0;
        while i < tiles.len()
            invariant
                0 <= i <= tiles@.len(),
                max_id <= u16::MAX,
                forall|j: int, k: int| 0 <= j < i && 0 <= k < 6 ==> (#[trigger] tiles@[j].spec_nodes()@[k] as int) <= max_id,
            decreases tiles@.len() - i,
        {
            let nodes = tiles[i].nodes();
            let mut k: usize = 0;
            while k < 6
                invariant
                    0 <= k <= 6,
                    0 <= i < tiles@.len(),
                    nodes == tiles@[i as int].spec_nodes(),
                    max_id <= u16::MAX,
                    forall|j: int, k2: int| 0 <= j < i && 0 <= k2 < 6 ==> (#[trigger] tiles@[j].spec_nodes()@[k2] as int) <= max_id,
                    forall|k2: int| 0 <= k2 < k ==> (#[trigger] nodes@[k2] as int) <= max_id,
                decreases 6 - k,
            {
                if nodes[k] as usize > max_id {
                    max_id = nodes[k] as usize;
                }
                k = k + 1;
            }
            i = i + 1;
        }
        let num: usize = if tiles.len() == 0 { 0 } else { max_id + 1 };
        let mut node_neighbors: Vec<Vec<NodeId>> = Vec::new();
        let mut adjacent_tiles: Vec<Vec<u16>> = Vec::new();
        let mut c: usize = 0;
        while c < num
            invariant
                0 <= c <= num,
                node_neighbors@.len() == c,
                adjacent_tiles@.len() == c,
                forall|x: int| 0 <= x < c ==> (#[trigger] node_neighbors@[x])@.len() == 0,
            decreases num - c,
        {
            node_neighbors.push(Vec::new());
            adjacent_tiles.push(Vec::new());
            c = c + 1;
        }
        assert(neighbor_lists_ok(node_neighbors@, num as nat));
        let mut land_tiles: Vec<LandTile> = Vec::new();
        let mut ports: Vec<Port> = Vec::new();
        let mut land_nodes: Vec<NodeId> = Vec::new();
        let mut port_nodes: Vec<(Option<Resource>, NodeId)> = Vec::new();
        let mut t: usize = 0;
        while t < tiles.len()
            invariant
                0 <= t <= tiles@.len(),
                num <= u16::MAX as nat + 1,
                tiles@.len() > 0 ==> num == max_id + 1,
                forall|j: int, k: int| 0 <= j < tiles@.len() && 0 <= k < 6 ==> (#[trigger] tiles@[j].spec_nodes()@[k] as int) <= max_id,
                neighbor_lists_ok(node_neighbors@, num as nat),
                adjacent_tiles@.len() == num,
                forall|i2: int| 0 <= i2 < land_nodes@.len() ==> (#[trigger] land_nodes@[i2] as int) < num,
                forall|i2: int| 0 <= i2 < port_nodes@.len() ==> (#[trigger] port_nodes@[i2].1 as int) < num,
                forall|i2: int, k: int| 0 <= i2 < land_tiles@.len() && 0 <= k < 6 ==> (#[trigger] land_tiles@[i2].nodes@[k] as int) < num,
                forall|j: int| 0 <= j < t ==> sides_linked(node_neighbors@, #[trigger] tiles@[j].spec_nodes()),
                forall|j: int| 0 <= j < t ==> (#[trigger] tiles@[j] matches Tile::Land(l) ==> land_tiles@.contains(l)),
            decreases tiles@.len() - t,
        {
            let tile = tiles[t];
            let nodes = tile.nodes();
            assert(forall|k: int| 0 <= k < 6 ==> (#[trigger] nodes@[k] as int) < num);
            let ghost before = node_neighbors@;
            link_sides(&mut node_neighbors, nodes, Ghost(num as nat));
            proof {
                assert forall|j: int| 0 <= j < t implies sides_linked(node_neighbors@, #[trigger] tiles@[j].spec_nodes()) by {
                    assert forall|k: int| 0 <= k < 6 implies (#[trigger] tiles@[j].spec_nodes()@[k] as int) < num by {
                        assert((tiles@[j].spec_nodes()@[k] as int) <= max_id);
                    }
                    lemma_sides_linked_kept(before, node_neighbors@, num as nat, tiles@[j].spec_nodes());
                }
            }
            let ghost land_before = land_tiles@;
            match tile {
                Tile::Land(land) => {
                    let mut k2: usize = 0;
                    while k2 < 6
                        invariant
                            0 <= k2 <= 6,
                            land.nodes == nodes,
                            forall|k3: int| 0 <= k3 < 6 ==> (#[trigger] nodes@[k3] as int) < num,
                            adjacent_tiles@.len() == num,
                            forall|i2: int| 0 <= i2 < land_nodes@.len() ==> (#[trigger] land_nodes@[i2] as int) < num,
                        decreases 6 - k2,
                    {
                        let node = nodes[k2];
                        let mut list = adjacent_tiles[node as usize].clone();
                        list.push(land.id);
                        adjacent_tiles.set(node as usize, list);
                        if !vec_contains_node(&land_nodes, node) {
                            land_nodes.push(node);
                        }
                        k2 = k2 + 1;
                    }
                    land_tiles.push(land);
                    assert(land_tiles@[land_tiles@.len() - 1] == land);
                },
                Tile::Port(port) => {
                    let (s1, s2) = port_slots(port.direction);
                    port_nodes.push((port.resource, nodes[s1]));
                    port_nodes.push((port.resource, nodes[s2]));
                    ports.push(port);
                },
                Tile::Water(_) => {},
            }
            proof {
                assert forall|j: int| 0 <= j < t + 1 implies (#[trigger] tiles@[j] matches Tile::Land(l) ==> land_tiles@.contains(l)) by {
                    if j < t {
                        if let Tile::Land(l) = tiles@[j] {
                            assert(land_before.contains(l));
                            let w = land_before.index_of(l);
                            assert(land_tiles@[w] == l);
                        }
                    }
                }
            }
            t = t + 1;
        }
        let mut edges: Vec<EdgeId> = Vec::new();
        let mut a: usize = 0;
        while a < num
            invariant
                0 <= a <= num,
                num <= u16::MAX as nat + 1,
                neighbor_lists_ok(node_neighbors@, num as nat),
                forall|i2: int| 0 <= i2 < edges@.len() ==> node_neighbors@[#[trigger] edges@[i2].0 as int]@.contains(edges@[i2].1)
                    && (edges@[i2].0 as int) < num && edges@[i2].0 < edges@[i2].1,
            decreases num - a,
        {
            let list = &node_neighbors[a];
            let mut k: usize = 0;
            while k < list.len()
                invariant
                    0 <= k <= list@.len(),
                    a < num,
                    num <= u16::MAX as nat + 1,
                    list == node_neighbors@[a as int],
                    neighbor_lists_ok(node_neighbors@, num as nat),
                    forall|i2: int| 0 <= i2 < edges@.len() ==> node_neighbors@[#[trigger] edges@[i2].0 as int]@.contains(edges@[i2].1)
                        && (edges@[i2].0 as int) < num && edges@[i2].0 < edges@[i2].1,
                decreases list@.len() - k,
            {
                let b = list[k];
                if (a as u16) < b {
                    assert(list@.contains(b));
                    edges.push((a as u16, b));
                }
                k = k + 1;
            }
            a = a + 1;
        }
        let m = CatanMap { land_tiles, ports, land_nodes, node_neighbors, adjacent_tiles, edges, port_nodes };
        assert forall|x: int, y: int| #[trigger] m.adjacent(x, y) implies m.adjacent(y, x) && x != y by {
            assert(m.node_neighbors@[x]@.contains(y as NodeId));
        }
        m
    }
}

} // verus!
