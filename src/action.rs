use vstd::prelude::*;

use crate::board::{EdgeId, NodeId};
use crate::resources::ResourceBundle;
use crate::types::{ActionType, DevelopmentCard, Resource};

verus! {

/// A move: who makes it, what kind it is, and its data.
#[derive(Debug, Clone, Copy, PartialEq, Eq, Hash)]
pub struct GameAction {
    pub player_index: usize,
    pub action_type: ActionType,
    pub payload: ActionPayload,
}

#[derive(Debug, Clone, Copy, PartialEq, Eq, Hash)]
pub enum ActionPayload {
    Empty,
    Node(NodeId),
    Edge(EdgeId),
    Dice(u8, u8),
    Resources(ResourceBundle),
    Resource(Resource),
    Trade { give: ResourceBundle, receive: ResourceBundle, partner: Option<usize> },
    MaritimeTrade { give: ResourceBundle, receive: Resource },
    DevelopmentCard(DevelopmentCard),
    Robber { tile_id: u16, victim: Option<usize>, resource: Option<Resource> },
}

impl Default for ActionPayload {
    fn default() -> (p: ActionPayload)
        ensures
            p == ActionPayload::Empty,
    {
        ActionPayload::Empty
    }
}

impl GameAction {
    pub open spec fn new_spec(player_index: usize, action_type: ActionType) -> GameAction {
        GameAction { player_index, action_type, payload: ActionPayload::Empty }
    }

    pub fn new(player_index: usize, action_type: ActionType) -> (a: GameAction)
        ensures
            a == GameAction::new_spec(player_index, action_type),
    {
        GameAction { player_index, action_type, payload: ActionPayload::Empty }
    }

    pub fn with_payload(self, payload: ActionPayload) -> (a: GameAction)
        ensures
            a == (GameAction { payload, ..self }),
    {
        let mut a = self;
        a.payload = payload;
        a
    }
}

} // verus!
