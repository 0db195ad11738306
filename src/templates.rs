use vstd::prelude::*;

use rand::rngs::StdRng;

use crate::board::{CatanMap, LandTile, NodeId, Port, Tile, TileNodes, Water};
use crate::chance::shuffle_in_place;
use crate::coords::{direction_at, small, unit_vector, CubeCoord, Direction};
use crate::state::MapType;
use crate::types::Resource;

verus! {

#[derive(Debug, Clone, Copy, PartialEq, Eq)]
pub enum TileTemplate {
    Land,
    Water,
    Port(Direction),
}

/// A board layout: cell kinds by coordinate, and the pools of numbers, tile
/// resources and port kinds dealt onto it.
#[derive(Debug, Clone)]
pub struct MapTemplate {
    pub numbers: Vec<u8>,
    pub port_resources: Vec<Option<Resource>>,
    pub tile_resources: Vec<Option<Resource>>,
    pub topology: Vec<(CubeCoord, TileTemplate)>,
}

/// Fixed pools that replace the shuffled ones.
#[derive(Debug, Clone)]
pub struct MapShuffleOverrides {
    pub numbers: Option<Vec<u8>>,
    pub port_resources: Option<Vec<Option<Resource>>>,
    pub tile_resources: Option<Vec<Option<Resource>>>,
}

impl Default for MapShuffleOverrides {
    fn default() -> (o: MapShuffleOverrides)
        ensures
            o.numbers.is_none() && o.port_resources.is_none() && o.tile_resources.is_none(),
    {
        MapShuffleOverrides { numbers: None, port_resources: None, tile_resources: None }
    }
}

/// Every coordinate of the topology is small.
pub open spec fn topology_ok(t: Seq<(CubeCoord, TileTemplate)>) -> bool {
    forall|i: int| 0 <= i < t.len() ==> small(#[trigger] t[i].0)
}

fn cell(x: i32, y: i32, z: i32, kind: TileTemplate) -> (c: (CubeCoord, TileTemplate))
    requires
        -1000 <= x <= 1000,
        -1000 <= y <= 1000,
        -1000 <= z <= 1000,
    ensures
        small(c.0),
        c.0.x == x && c.0.y == y && c.0.z == z,
        c.1 == kind,
{
    (CubeCoord::new(x, y, z), kind)
}

pub fn base_topology() -> (t: Vec<(CubeCoord, TileTemplate)>)
    ensures
        topology_ok(t@),
        t@.len() == 37,
        forall|i: int| 0 <= i < 19 ==> (#[trigger] t@[i]).1 == TileTemplate::Land,
        forall|i: int| 19 <= i < 37 ==> ((#[trigger] t@[i]).1 matches TileTemplate::Port(_) <==> (i - 19) % 2 == 0),
        forall|i: int| 19 <= i < 37 && (i - 19) % 2 == 1 ==> (#[trigger] t@[i]).1 == TileTemplate::Water,
        forall|i: int, j: int| 0 <= i < j < 37 ==> (#[trigger] t@[i]).0 != (#[trigger] t@[j]).0,
{
    let land = TileTemplate::Land;
    let water = TileTemplate::Water;
    let t = vec![
        cell(0, 0, 0, land), cell(1, -1, 0, land), cell(0, -1, 1, land), cell(-1, 0, 1, land),
        cell(-1, 1, 0, land), cell(0, 1, -1, land), cell(1, 0, -1, land), cell(2, -2, 0, land),
        cell(1, -2, 1, land), cell(0, -2, 2, land), cell(-1, -1, 2, land), cell(-2, 0, 2, land),
        cell(-2, 1, 1, land), cell(-2, 2, 0, land), cell(-1, 2, -1, land), cell(0, 2, -2, land),
        cell(1, 1, -2, land), cell(2, 0, -2, land), cell(2, -1, -1, land),
        cell(3, -3, 0, TileTemplate::Port(Direction::West)), cell(2, -3, 1, water),
        cell(1, -3, 2, TileTemplate::Port(Direction::NorthWest)), cell(0, -3, 3, water),
        cell(-1, -2, 3, TileTemplate::Port(Direction::NorthWest)), cell(-2, -1, 3, water),
        cell(-3, 0, 3, TileTemplate::Port(Direction::NorthEast)), cell(-3, 1, 2, water),
        cell(-3, 2, 1, TileTemplate::Port(Direction::East)), cell(-3, 3, 0, water),
        cell(-2, 3, -1, TileTemplate::Port(Direction::East)), cell(-1, 3, -2, water),
        cell(0, 3, -3, TileTemplate::Port(Direction::SouthEast)), cell(1, 2, -3, water),
        cell(2, 1, -3, TileTemplate::Port(Direction::SouthWest)), cell(3, 0, -3, water),
        cell(3, -1, -2, TileTemplate::Port(Direction::SouthWest)), cell(3, -2, -1, water),
    ];
    t
}

pub fn mini_topology() -> (t: Vec<(CubeCoord, TileTemplate)>)
    ensures
        topology_ok(t@),
        t@.len() == 19,
{
    let land = TileTemplate::Land;
    let water = TileTemplate::Water;
    let t = vec![
        cell(0, 0, 0, land), cell(1, -1, 0, land), cell(0, -1, 1, land), cell(-1, 0, 1, land),
        cell(-1, 1, 0, land), cell(0, 1, -1, land), cell(1, 0, -1, land),
        cell(2, -2, 0, water), cell(1, -2, 1, water), cell(0, -2, 2, water), cell(-1, -1, 2, water),
        cell(-2, 0, 2, water), cell(-2, 1, 1, water), cell(-2, 2, 0, water), cell(-1, 2, -1, water),
        cell(0, 2, -2, water), cell(1, 1, -2, water), cell(2, 0, -2, water), cell(2, -1, -1, water),
    ];
    t
}

impl MapTemplate {
    pub open spec fn wf(&self) -> bool {
        &&& topology_ok(self.topology@)
        &&& self.topology@.len() <= 1000
    }

    /// The standard board: 19 land tiles ringed by 9 ports and 9 water cells.
    pub fn base() -> (m: MapTemplate)
        ensures
            m.wf(),
            m.numbers@ == seq![2u8, 3, 3, 4, 4, 5, 5, 6, 6, 8, 8, 9, 9, 10, 10, 11, 11, 12],
            m.port_resources@ == seq![
                Some(Resource::Wood), Some(Resource::Brick), Some(Resource::Sheep),
                Some(Resource::Wheat), Some(Resource::Ore), None, None, None, None,
            ],
            m.tile_resources@ == seq![
                Some(Resource::Wood), Some(Resource::Wood), Some(Resource::Wood), Some(Resource::Wood),
                Some(Resource::Brick), Some(Resource::Brick), Some(Resource::Brick),
                Some(Resource::Sheep), Some(Resource::Sheep), Some(Resource::Sheep), Some(Resource::Sheep),
                Some(Resource::Wheat), Some(Resource::Wheat), Some(Resource::Wheat), Some(Resource::Wheat),
                Some(Resource::Ore), Some(Resource::Ore), Some(Resource::Ore), None,
            ],
            m.topology@.len() == 37,
            forall|i: int| 0 <= i < 19 ==> (#[trigger] m.topology@[i]).1 == TileTemplate::Land,
            forall|i: int| 19 <= i < 37 ==> ((#[trigger] m.topology@[i]).1 matches TileTemplate::Port(_) <==> (i - 19) % 2 == 0),
            forall|i: int| 19 <= i < 37 && (i - 19) % 2 == 1 ==> (#[trigger] m.topology@[i]).1 == TileTemplate::Water,
            forall|i: int, j: int| 0 <= i < j < 37 ==> (#[trigger] m.topology@[i]).0 != (#[trigger] m.topology@[j]).0,
    {
        MapTemplate {
            numbers: vec![2, 3, 3, 4, 4, 5, 5, 6, 6, 8, 8, 9, 9, 10, 10, 11, 11, 12],
            port_resources: vec![
                Some(Resource::Wood), Some(Resource::Brick), Some(Resource::Sheep),
                Some(Resource::Wheat), Some(Resource::Ore), None, None, None, None,
            ],
            tile_resources: vec![
                Some(Resource::Wood), Some(Resource::Wood), Some(Resource::Wood), Some(Resource::Wood),
                Some(Resource::Brick), Some(Resource::Brick), Some(Resource::Brick),
                Some(Resource::Sheep), Some(Resource::Sheep), Some(Resource::Sheep), Some(Resource::Sheep),
                Some(Resource::Wheat), Some(Resource::Wheat), Some(Resource::Wheat), Some(Resource::Wheat),
                Some(Resource::Ore), Some(Resource::Ore), Some(Resource::Ore), None,
            ],
            topology: base_topology(),
        }
    }

    /// A small board: 7 land tiles in open water, no ports.
    pub fn mini() -> (m: MapTemplate)
        ensures
            m.wf(),
            m.numbers@ == seq![3u8, 4, 5, 6, 8, 9, 10],
            m.port_resources@.len() == 0,
            m.tile_resources@ == seq![
                Some(Resource::Wood), None, Some(Resource::Brick), Some(Resource::Sheep),
                Some(Resource::Wheat), Some(Resource::Wheat), Some(Resource::Ore),
            ],
            m.topology@.len() == 19,
    {
        MapTemplate {
            numbers: vec![3, 4, 5, 6, 8, 9, 10],
            port_resources: Vec::new(),
            tile_resources: vec![
                Some(Resource::Wood), None, Some(Resource::Brick), Some(Resource::Sheep),
                Some(Resource::Wheat), Some(Resource::Wheat), Some(Resource::Ore),
            ],
            topology: mini_topology(),
        }
    }
}

/// Corner slot (N, NE, SE, S, SW, NW = 0..5) pairs shared with the neighbour in
/// direction `d`: (slot of this tile, slot of the neighbour), twice.
pub open spec fn spec_shared_slots(d: Direction) -> (usize, usize, usize, usize) {
    match d {
        Direction::East => (1, 5, 2, 4),
        Direction::SouthEast => (3, 5, 2, 0),
        Direction::SouthWest => (3, 1, 4, 0),
        Direction::West => (5, 1, 4, 2),
        Direction::NorthWest => (0, 2, 5, 3),
        Direction::NorthEast => (0, 4, 1, 3),
    }
}

fn shared_slots(d: Direction) -> (s: (usize, usize, usize, usize))
    ensures
        s == spec_shared_slots(d),
        s.0 < 6 && s.1 < 6 && s.2 < 6 && s.3 < 6,
{
    match d {
        Direction::East => (1, 5, 2, 4),
        Direction::SouthEast => (3, 5, 2, 0),
        Direction::SouthWest => (3, 1, 4, 0),
        Direction::West => (5, 1, 4, 2),
        Direction::NorthWest => (0, 2, 5, 3),
        Direction::NorthEast => (0, 4, 1, 3),
    }
}

fn find_placed(placed: &Vec<(CubeCoord, TileNodes)>, c: CubeCoord) -> (r: Option<TileNodes>) {
    let mut i: usize = 0;
    while i < placed.len()
        invariant
            0 <= i <= placed@.len(),
        decreases placed@.len() - i,
    {
        let (pc, nodes) = placed[i];
        if pc.x == c.x && pc.y == c.y && pc.z == c.z {
            return Some(nodes);
        }
        i = i + 1;
    }
    None
}

/// Corner ids of the tile at `coordinate`: corners shared with tiles placed before
/// take their ids, the others get fresh ids from `next_id` on.
pub fn get_nodes_and_edges(placed: &Vec<(CubeCoord, TileNodes)>, coordinate: CubeCoord, next_id: NodeId) -> (r: (TileNodes, NodeId))
    requires
        small(coordinate),
        next_id as int + 6 <= u16::MAX,
    ensures
        r.1 as int <= next_id as int + 6,
        r.1 >= next_id,
{
    let mut slots: [Option<NodeId>; 6] = [None; 6];
    let mut d: usize = 0;
    while d < 6
        invariant
            0 <= d <= 6,
            small(coordinate),
        decreases 6 - d,
    {
        let dir = direction_at(d);
        let neighbor = coordinate.add(unit_vector(dir));
        match find_placed(placed, neighbor) {
            Some(nb) => {
                let (a, na, b, nb2) = shared_slots(dir);
                slots[a] = Some(nb[na]);
                slots[b] = Some(nb[nb2]);
            },
            None => {},
        }
        d = d + 1;
    }
    let mut nodes: TileNodes = [0u16; 6];
    let mut next = next_id;
    let mut k: usize = 0;
    while k < 6
        invariant
            0 <= k <= 6,
            next_id <= next,
            next as int <= next_id as int + k,
            next_id as int + 6 <= u16::MAX,
        decreases 6 - k,
    {
        match slots[k] {
            Some(id) => {
                nodes[k] = id;
            },
            None => {
                nodes[k] = next;
                next = next + 1;
            },
        }
        k = k + 1;
    }
    (nodes, next)
}

fn take_or<T: Copy>(v: &mut Vec<T>, fallback: T) -> T {
    match v.pop() {
        Some(x) => x,
        None => fallback,
    }
}

/// Deals the pools (shuffled unless overridden) onto the topology, in order, and
/// numbers the corners.
pub fn initialize_tiles(template: &MapTemplate, overrides: &MapShuffleOverrides, rng: &mut StdRng) -> (tiles: Vec<Tile>)
    requires
        template.wf(),
    ensures
        tiles@.len() == template.topology@.len(),
        forall|i: int| 0 <= i < tiles@.len() ==> match (template.topology@[i].1, #[trigger] tiles@[i]) {
            (TileTemplate::Land, Tile::Land(_)) => true,
            (TileTemplate::Water, Tile::Water(_)) => true,
            (TileTemplate::Port(d), Tile::Port(port)) => port.direction == d,
            _ => false,
        },
{
    let mut numbers = match &overrides.numbers {
        Some(v) => v.clone(),
        None => {
            let mut v = template.numbers.clone();
            shuffle_in_place(&mut v, rng);
            v
        },
    };
    let mut ports = match &overrides.port_resources {
        Some(v) => v.clone(),
        None => {
            let mut v = template.port_resources.clone();
            shuffle_in_place(&mut v, rng);
            v
        },
    };
    let mut resources = match &overrides.tile_resources {
        Some(v) => v.clone(),
        None => {
            let mut v = template.tile_resources.clone();
            shuffle_in_place(&mut v, rng);
            v
        },
    };
    let mut tiles: Vec<Tile> = Vec::new();
    let mut placed: Vec<(CubeCoord, TileNodes)> = Vec::new();
    let mut next_id: NodeId = 0;
    let mut land_id: u16 = 0;
    let mut port_id: u16 = 0;
    let mut i: usize = 0;
    while i < template.topology.len()
        invariant
            template.wf(),
            0 <= i <= template.topology@.len(),
            tiles@.len() == i,
            forall|j: int| 0 <= j < i ==> match (template.topology@[j].1, #[trigger] tiles@[j]) {
                (TileTemplate::Land, Tile::Land(_)) => true,
                (TileTemplate::Water, Tile::Water(_)) => true,
                (TileTemplate::Port(d), Tile::Port(port)) => port.direction == d,
                _ => false,
            },
            next_id as int <= 6 * i,
            land_id as int <= i,
            port_id as int <= i,
        decreases template.topology@.len() - i,
    {
        let (coord, kind) = template.topology[i];
        let (nodes, next) = get_nodes_and_edges(&placed, coord, next_id);
        next_id = next;
        placed.push((coord, nodes));
        match kind {
            TileTemplate::Land => {
                let resource = take_or(&mut resources, None);
                let number = match resource {
                    Some(_) => Some(take_or(&mut numbers, 0)),
                    None => None,
                };
                tiles.push(Tile::Land(LandTile { id: land_id, resource, number, nodes }));
                land_id = land_id + 1;
            },
            TileTemplate::Water => {
                tiles.push(Tile::Water(Water { nodes }));
            },
            TileTemplate::Port(direction) => {
                let resource = take_or(&mut ports, None);
                tiles.push(Tile::Port(Port { id: port_id, resource, direction, nodes }));
                port_id = port_id + 1;
            },
        }
        i = i + 1;
    }
    tiles
}

impl CatanMap {
    pub fn from_template_with_rng(template: &MapTemplate, overrides: &MapShuffleOverrides, rng: &mut StdRng) -> (m: CatanMap)
        requires
            template.wf(),
        ensures
            m.wf(),
    {
        let tiles = initialize_tiles(template, overrides, rng);
        CatanMap::from_tiles(tiles)
    }

    /// The board of the given kind; the tournament board deals fixed pools.
    pub fn build_with_rng(map_type: MapType, rng: &mut StdRng) -> (m: CatanMap)
        ensures
            m.wf(),
    {
        match map_type {
            MapType::Base => CatanMap::from_template_with_rng(&MapTemplate::base(), &MapShuffleOverrides::default(), rng),
            MapType::Mini => CatanMap::from_template_with_rng(&MapTemplate::mini(), &MapShuffleOverrides::default(), rng),
            MapType::Tournament => CatanMap::from_template_with_rng(&MapTemplate::base(), &tournament_overrides(), rng),
        }
    }
}

/// The fixed pools of the tournament board.
pub fn tournament_overrides() -> MapShuffleOverrides {
    MapShuffleOverrides {
        numbers: Some(vec![10, 8, 3, 6, 2, 5, 10, 8, 4, 11, 12, 9, 5, 4, 9, 11, 3, 6]),
        port_resources: Some(vec![
            None, Some(Resource::Sheep), None, Some(Resource::Ore), Some(Resource::Wheat), None,
            Some(Resource::Wood), Some(Resource::Brick), None,
        ]),
        tile_resources: Some(vec![
            None, Some(Resource::Wood), Some(Resource::Sheep), Some(Resource::Sheep), Some(Resource::Wood),
            Some(Resource::Wheat), Some(Resource::Wood), Some(Resource::Wheat), Some(Resource::Brick),
            Some(Resource::Sheep), Some(Resource::Brick), Some(Resource::Sheep), Some(Resource::Wheat),
            Some(Resource::Wheat), Some(Resource::Ore), Some(Resource::Brick), Some(Resource::Ore),
            Some(Resource::Wood), Some(Resource::Ore), None,
        ]),
    }
}

} // verus!
