use vstd::prelude::*;

verus! {

/// The five resource kinds, in their canonical order.
#[derive(Debug, Clone, Copy, PartialEq, Eq, Hash, Structural)]
pub enum Resource {
    Wood,
    Brick,
    Sheep,
    Wheat,
    Ore,
}

/// Number of resource kinds.
pub const NUM_RESOURCES: usize = 5;

/// Position of a resource kind in the canonical order.
pub open spec fn spec_resource_index(r: Resource) -> int {
    match r {
        Resource::Wood => 0,
        Resource::Brick => 1,
        Resource::Sheep => 2,
        Resource::Wheat => 3,
        Resource::Ore => 4,
    }
}

/// Resource kind at a position of the canonical order.
pub open spec fn spec_resource_at(i: int) -> Resource {
    if i == 0 {
        Resource::Wood
    } else if i == 1 {
        Resource::Brick
    } else if i == 2 {
        Resource::Sheep
    } else if i == 3 {
        Resource::Wheat
    } else {
        Resource::Ore
    }
}

pub fn resource_index(r: Resource) -> (i: usize)
    ensures
        i == spec_resource_index(r),
        i < NUM_RESOURCES,
        spec_resource_at(i as int) == r,
{
    match r {
        Resource::Wood => 0,
        Resource::Brick => 1,
        Resource::Sheep => 2,
        Resource::Wheat => 3,
        Resource::Ore => 4,
    }
}

pub fn resource_at(i: usize) -> (r: Resource)
    requires
        i < NUM_RESOURCES,
    ensures
        r == spec_resource_at(i as int),
        spec_resource_index(r) == i,
{
    if i == 0 {
        Resource::Wood
    } else if i == 1 {
        Resource::Brick
    } else if i == 2 {
        Resource::Sheep
    } else if i == 3 {
        Resource::Wheat
    } else {
        Resource::Ore
    }
}

impl Resource {
    /// The upper-case name of the resource.
    pub fn name(&self) -> (s: &'static str) {
        match self {
            Resource::Wood => "WOOD",
            Resource::Brick => "BRICK",
            Resource::Sheep => "SHEEP",
            Resource::Wheat => "WHEAT",
            Resource::Ore => "ORE",
        }
    }
}

#[derive(Debug, Clone, Copy, PartialEq, Eq, Hash, Structural)]
pub enum DevelopmentCard {
    Knight,
    YearOfPlenty,
    Monopoly,
    RoadBuilding,
    VictoryPoint,
}

#[derive(Debug, Clone, Copy, PartialEq, Eq, Hash, Structural)]
pub enum BuildingKind {
    Settlement,
    City,
    Road,
}

/// Seat colours, in seating order.
#[derive(Debug, Clone, Copy, PartialEq, Eq, Hash, Structural)]
pub enum Color {
    Red,
    Blue,
    Orange,
    White,
}

pub open spec fn spec_color_at(i: int) -> Color {
    if i == 0 {
        Color::Red
    } else if i == 1 {
        Color::Blue
    } else if i == 2 {
        Color::Orange
    } else {
        Color::White
    }
}

/// Colour of the seat at position `i` of the fixed palette.
pub fn color_at(i: usize) -> (c: Color)
    requires
        i < 4,
    ensures
        c == spec_color_at(i as int),
{
    if i == 0 {
        Color::Red
    } else if i == 1 {
        Color::Blue
    } else if i == 2 {
        Color::Orange
    } else {
        Color::White
    }
}

#[derive(Debug, Clone, Copy, PartialEq, Eq, Hash, Structural)]
pub enum NodeRef {
    North,
    NorthEast,
    SouthEast,
    South,
    SouthWest,
    NorthWest,
}

#[derive(Debug, Clone, Copy, PartialEq, Eq, Hash, Structural)]
pub enum EdgeRef {
    East,
    SouthEast,
    SouthWest,
    West,
    NorthWest,
    NorthEast,
}

/// The kind of decision the engine expects next.
#[derive(Debug, Clone, Copy, PartialEq, Eq, Hash, Structural)]
pub enum ActionPrompt {
    BuildInitialSettlement,
    BuildInitialRoad,
    PlayTurn,
    Discard,
    MoveRobber,
    DecideTrade,
    DecideAcceptees,
}

#[derive(Debug, Clone, Copy, PartialEq, Eq, Hash, Structural)]
pub enum ActionType {
    Roll,
    MoveRobber,
    Discard,
    BuildRoad,
    BuildSettlement,
    BuildCity,
    BuyDevelopmentCard,
    PlayKnightCard,
    PlayYearOfPlenty,
    PlayMonopoly,
    PlayRoadBuilding,
    MaritimeTrade,
    OfferTrade,
    AcceptTrade,
    RejectTrade,
    ConfirmTrade,
    CancelTrade,
    EndTurn,
}

} // verus!
