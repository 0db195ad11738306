use vstd::prelude::*;

verus! {

broadcast use vstd::seq_lib::group_seq_properties;

#[derive(Debug, Clone, Copy, PartialEq, Eq, Hash, Structural)]
pub enum Direction {
    East,
    SouthEast,
    SouthWest,
    West,
    NorthWest,
    NorthEast,
}

/// Cube coordinates of a hex cell; valid ones sum to zero.
#[derive(Debug, Clone, Copy, PartialEq, Eq, Hash, Structural)]
pub struct CubeCoord {
    pub x: i32,
    pub y: i32,
    pub z: i32,
}

/// Coordinates small enough that a step to a neighbour cannot overflow.
pub open spec fn small(c: CubeCoord) -> bool {
    -1000000 <= c.x <= 1000000 && -1000000 <= c.y <= 1000000 && -1000000 <= c.z <= 1000000
}

/// The offset of one step in direction `d`, as (x, y, z).
pub open spec fn spec_unit_vector(d: Direction) -> (int, int, int) {
    match d {
        Direction::NorthEast => (1, 0, -1),
        Direction::SouthWest => (-1, 0, 1),
        Direction::NorthWest => (0, 1, -1),
        Direction::SouthEast => (0, -1, 1),
        Direction::East => (1, -1, 0),
        Direction::West => (-1, 1, 0),
    }
}

pub fn unit_vector(d: Direction) -> (c: CubeCoord)
    ensures
        (c.x as int, c.y as int, c.z as int) == spec_unit_vector(d),
{
    match d {
        Direction::NorthEast => CubeCoord { x: 1, y: 0, z: -1 },
        Direction::SouthWest => CubeCoord { x: -1, y: 0, z: 1 },
        Direction::NorthWest => CubeCoord { x: 0, y: 1, z: -1 },
        Direction::SouthEast => CubeCoord { x: 0, y: -1, z: 1 },
        Direction::East => CubeCoord { x: 1, y: -1, z: 0 },
        Direction::West => CubeCoord { x: -1, y: 1, z: 0 },
    }
}

/// The direction at position `i` of the order East, SouthEast, SouthWest, West, NorthWest, NorthEast.
pub open spec fn spec_direction_at(i: int) -> Direction {
    if i == 0 {
        Direction::East
    } else if i == 1 {
        Direction::SouthEast
    } else if i == 2 {
        Direction::SouthWest
    } else if i == 3 {
        Direction::West
    } else if i == 4 {
        Direction::NorthWest
    } else {
        Direction::NorthEast
    }
}

pub fn direction_at(i: usize) -> (d: Direction)
    requires
        i < 6,
    ensures
        d == spec_direction_at(i as int),
{
    if i == 0 {
        Direction::East
    } else if i == 1 {
        Direction::SouthEast
    } else if i == 2 {
        Direction::SouthWest
    } else if i == 3 {
        Direction::West
    } else if i == 4 {
        Direction::NorthWest
    } else {
        Direction::NorthEast
    }
}

impl CubeCoord {
    pub fn new(x: i32, y: i32, z: i32) -> (c: CubeCoord)
        ensures
            c.x == x && c.y == y && c.z == z,
    {
        CubeCoord { x, y, z }
    }

    pub fn add(self, other: CubeCoord) -> (c: CubeCoord)
        requires
            small(self),
            small(other),
        ensures
            c.x == self.x + other.x && c.y == self.y + other.y && c.z == self.z + other.z,
    {
        CubeCoord { x: self.x + other.x, y: self.y + other.y, z: self.z + other.z }
    }

    /// The six neighbouring cells, in the order of `direction_at`.
    pub fn neighbors(self) -> (v: Vec<CubeCoord>)
        requires
            small(self),
        ensures
            v@.len() == 6,
            forall|i: int| 0 <= i < 6 ==> ((#[trigger] v@[i]).x - self.x, v@[i].y - self.y, v@[i].z - self.z)
                == spec_unit_vector(spec_direction_at(i)),
    {
        let mut v: Vec<CubeCoord> = Vec::new();
        let mut i: usize = 0;
        while i < 6
            invariant
                small(self),
                0 <= i <= 6,
                v@.len() == i,
                forall|j: int| 0 <= j < i ==> ((#[trigger] v@[j]).x - self.x, v@[j].y - self.y, v@[j].z - self.z)
                    == spec_unit_vector(spec_direction_at(j)),
            decreases 6 - i,
        {
            let u = unit_vector(direction_at(i));
            v.push(self.add(u));
            i = i + 1;
        }
        v
    }

    /// The cell at column `x`, row `y` of the odd-row offset layout.
    pub fn from_offset(x: i32, y: i32) -> (c: CubeCoord)
        requires
            -1000000 <= x <= 1000000,
            -1000000 <= y <= 1000000,
        ensures
            c == spec_offset_to_cube(x as int, y as int),
    {
        offset_to_cube((x, y))
    }
}

impl Default for CubeCoord {
    fn default() -> (c: CubeCoord)
        ensures
            c.x == 0 && c.y == 0 && c.z == 0,
    {
        CubeCoord { x: 0, y: 0, z: 0 }
    }
}

pub fn add(a: CubeCoord, b: CubeCoord) -> (c: CubeCoord)
    requires
        small(a),
        small(b),
    ensures
        c.x == a.x + b.x && c.y == a.y + b.y && c.z == a.z + b.z,
{
    a.add(b)
}

/// Number of cells within `layer` steps of the centre.
pub open spec fn spec_num_tiles_for(layer: int) -> int
    decreases layer,
{
    if layer <= 0 { 1 } else { 6 * layer + spec_num_tiles_for(layer - 1) }
}

pub fn num_tiles_for(layer: i32) -> (n: i32)
    requires
        0 <= layer,
        3 * layer * (layer + 1) + 1 <= i32::MAX,
    ensures
        n == spec_num_tiles_for(layer as int),
        n == 3 * layer * (layer + 1) + 1,
    decreases layer,
{
    if layer == 0 {
        assert(3 * layer * (layer + 1) + 1 == 1) by (nonlinear_arith) requires layer == 0;
        return 1;
    }
    assert(3 * (layer - 1) * layer + 1 <= 3 * layer * (layer + 1) + 1) by (nonlinear_arith) requires 1 <= layer;
    let prev = num_tiles_for(layer - 1);
    assert(3 * layer * (layer + 1) + 1 == 6 * layer + 3 * (layer - 1) * layer + 1) by (nonlinear_arith);
    6 * layer + prev
}

pub open spec fn abs(v: int) -> int {
    if v < 0 { -v } else { v }
}

/// A valid cell at most `n` steps from the centre.
pub open spec fn within(c: CubeCoord, n: int) -> bool {
    c.x + c.y + c.z == 0 && abs(c.x as int) <= n && abs(c.y as int) <= n && abs(c.z as int) <= n
}

/// Every valid cell within `num_layers` steps of the centre, each once.
pub fn generate_coordinate_system(num_layers: i32) -> (v: Vec<CubeCoord>)
    requires
        0 <= num_layers,
        2 * num_layers <= i32::MAX,
    ensures
        forall|i: int| 0 <= i < v@.len() ==> within(#[trigger] v@[i], num_layers as int),
        forall|c: CubeCoord| within(c, num_layers as int) ==> v@.contains(c),
        v@.no_duplicates(),
{
    let n = num_layers;
    let mut v: Vec<CubeCoord> = Vec::new();
    let mut x: i32 = -n;
    while x <= n
        invariant
            0 <= n,
            2 * n <= i32::MAX,
            -n <= x <= n + 1,
            forall|i: int| 0 <= i < v@.len() ==> within(#[trigger] v@[i], n as int),
            forall|c: CubeCoord| within(c, n as int) && c.x < x ==> v@.contains(c),
            forall|i: int| 0 <= i < v@.len() ==> (#[trigger] v@[i]).x < x,
            v@.no_duplicates(),
        decreases n + 1 - x,
    {
        let mut y: i32 = -n;
        while y <= n
            invariant
                0 <= n,
            2 * n <= i32::MAX,
                -n <= x <= n,
                -n <= y <= n + 1,
                forall|i: int| 0 <= i < v@.len() ==> within(#[trigger] v@[i], n as int),
                forall|c: CubeCoord| within(c, n as int) && (c.x < x || (c.x == x && c.y < y)) ==> v@.contains(c),
                forall|i: int| 0 <= i < v@.len() ==> (#[trigger] v@[i]).x < x || (v@[i].x == x && v@[i].y < y),
                v@.no_duplicates(),
            decreases n + 1 - y,
        {
            let z = -x - y;
            if -n <= z && z <= n {
                let c = CubeCoord { x, y, z };
                let ghost vb = v@;
                v.push(c);
                assert(v@[v@.len() - 1] == c);
                assert forall|i: int, j: int| 0 <= i < v@.len() && 0 <= j < v@.len() && i != j implies v@[i] != v@[j] by {
                    if i < vb.len() && j < vb.len() {
                        assert(vb[i] != vb[j]);
                    } else if i < vb.len() {
                        assert(vb[i].x < x || vb[i].y < y);
                    } else {
                        assert(vb[j].x < x || vb[j].y < y);
                    }
                }
            }
            proof {
                assert forall|c: CubeCoord| within(c, n as int) && (c.x < x || (c.x == x && c.y < y + 1)) implies v@.contains(c) by {
                    if c.x == x && c.y == y {
                        assert(c == CubeCoord { x, y, z });
                        assert(v@[v@.len() - 1] == c);
                    }
                }
            }
            y = y + 1;
        }
        x = x + 1;
    }
    v
}

pub fn cube_to_axial(cube: CubeCoord) -> (r: (i32, i32))
    ensures
        r == (cube.x, cube.z),
{
    (cube.x, cube.z)
}

/// 1 for odd values, 0 for even ones.
pub open spec fn parity(v: int) -> int {
    if v % 2 == 0 { 0 } else { 1 }
}

fn parity_of(v: i32) -> (p: i32)
    ensures
        p == parity(v as int),
{
    if v % 2 == 0 { 0 } else { 1 }
}

/// Odd-row offset column of a cell: `x + (z - (z & 1)) / 2`, with row `z`.
pub open spec fn spec_cube_to_offset(c: CubeCoord) -> (int, int) {
    (c.x + (c.z - parity(c.z as int)) / 2, c.z as int)
}

pub open spec fn spec_offset_to_cube(col: int, row: int) -> CubeCoord {
    let x = col - (row - parity(row)) / 2;
    CubeCoord { x: x as i32, y: (-x - row) as i32, z: row as i32 }
}

pub fn cube_to_offset(cube: CubeCoord) -> (r: (i32, i32))
    requires
        small(cube),
    ensures
        r.0 == spec_cube_to_offset(cube).0,
        r.1 == cube.z,
{
    let p = parity_of(cube.z);
    let half = (cube.z - p) / 2;
    (cube.x + half, cube.z)
}

pub fn offset_to_cube(offset: (i32, i32)) -> (c: CubeCoord)
    requires
        -1000000 <= offset.0 <= 1000000,
        -1000000 <= offset.1 <= 1000000,
    ensures
        c == spec_offset_to_cube(offset.0 as int, offset.1 as int),
        c.x + c.y + c.z == 0,
{
    let p = parity_of(offset.1);
    let x = offset.0 - (offset.1 - p) / 2;
    let z = offset.1;
    let y = -x - z;
    CubeCoord { x, y, z }
}

} // verus!
