use vstd::prelude::*;

use crate::types::ActionPrompt;

verus! {

/// The scripted opening: each player places a settlement then a road in seating
/// order, then again in reverse seating order.
#[derive(Debug, Clone, Copy, PartialEq, Eq)]
pub struct SetupState {
    pub num_players: usize,
    pub cursor: usize,
}

/// Number of steps in the opening script.
pub open spec fn setup_len(n: int) -> int {
    4 * n
}

/// Player who acts at step `k`.
pub open spec fn setup_player(n: int, k: int) -> int {
    if k < 2 * n {
        k / 2
    } else {
        n - 1 - (k - 2 * n) / 2
    }
}

/// Prompt at step `k`: even steps place a settlement, odd ones a road.
pub open spec fn setup_prompt(k: int) -> ActionPrompt {
    if k % 2 == 0 {
        ActionPrompt::BuildInitialSettlement
    } else {
        ActionPrompt::BuildInitialRoad
    }
}

impl SetupState {
    pub open spec fn wf(&self) -> bool {
        &&& 1 <= self.num_players <= 4
        &&& self.cursor <= setup_len(self.num_players as int)
    }

    pub open spec fn done(&self) -> bool {
        self.cursor >= setup_len(self.num_players as int)
    }

    pub fn new(num_players: usize) -> (s: SetupState)
        requires
            1 <= num_players <= 4,
        ensures
            s.wf(),
            s.num_players == num_players,
            s.cursor == 0,
    {
        SetupState { num_players, cursor: 0 }
    }

    pub fn current_prompt(&self) -> (p: Option<ActionPrompt>)
        requires
            self.wf(),
        ensures
            self.done() ==> p.is_none(),
            !self.done() ==> p == Some(setup_prompt(self.cursor as int)),
    {
        if self.cursor >= 4 * self.num_players {
            None
        } else if self.cursor % 2 == 0 {
            Some(ActionPrompt::BuildInitialSettlement)
        } else {
            Some(ActionPrompt::BuildInitialRoad)
        }
    }

    pub fn current_player(&self) -> (p: Option<usize>)
        requires
            self.wf(),
        ensures
            self.done() ==> p.is_none(),
            !self.done() ==> p == Some(setup_player(self.num_players as int, self.cursor as int) as usize),
            p.is_some() ==> p.unwrap() < self.num_players,
    {
        let n = self.num_players;
        let k = self.cursor;
        if k >= 4 * n {
            None
        } else if k < 2 * n {
            Some(k / 2)
        } else {
            Some(n - 1 - (k - 2 * n) / 2)
        }
    }

    /// The current step places a settlement of the second, reverse-order round.
    pub fn is_second_settlement(&self) -> (b: bool)
        requires
            self.wf(),
        ensures
            b == (!self.done() && self.cursor >= 2 * self.num_players && self.cursor % 2 == 0),
    {
        self.cursor < 4 * self.num_players && self.cursor >= 2 * self.num_players && self.cursor % 2 == 0
    }

    pub fn advance(&mut self)
        requires
            old(self).wf(),
        ensures
            final(self).wf(),
            final(self).num_players == old(self).num_players,
            final(self).cursor == if old(self).done() { old(self).cursor } else { (old(self).cursor + 1) as usize },
    {
        if self.cursor < 4 * self.num_players {
            self.cursor = self.cursor + 1;
        }
    }

    pub fn is_complete(&self) -> (b: bool)
        requires
            self.wf(),
        ensures
            b == self.done(),
    {
        self.cursor >= 4 * self.num_players
    }
}

} // verus!
