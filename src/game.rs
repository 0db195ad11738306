use vstd::prelude::*;

use uuid::Uuid;

use crate::action::GameAction;
use crate::state::{phase_rank, GameConfig, GameError, GamePhase, GameState, StepOutcome};
use crate::types::Color;

verus! {

#[verifier::external_type_specification]
#[verifier::external_body]
pub struct ExUuid(uuid::Uuid);

/// Relies on the derived `Clone` of uuid's `Uuid`, a plain copy.
pub assume_specification[ <uuid::Uuid as core::clone::Clone>::clone ](id: &uuid::Uuid) -> (r: uuid::Uuid)
    ensures
        r == *id,
;

/// Relies on uuid's `Uuid::new_v4`: a random identifier.
#[verifier::external_body]
fn fresh_id() -> Uuid {
    Uuid::new_v4()
}

/// Turns after which an unfinished game is abandoned.
pub const TURNS_LIMIT: u32 = 1000;

/// Ticks after which `play` gives up, whatever the decision-makers do.
pub const TICKS_LIMIT: u64 = 10000000;

/// A decision-maker for one seat: picks one of the offered actions, or none.
pub trait BasePlayer {
    fn decide(&self, game: &Game, actions: &[GameAction]) -> Option<GameAction>;
}

/// A game session: the state machine with its identity and target.
#[derive(Debug, Clone)]
pub struct Game {
    pub seed: u64,
    pub id: Uuid,
    pub vps_to_win: u8,
    pub state: GameState,
}

impl Game {
    pub open spec fn wf(&self) -> bool {
        self.state.valid() && self.vps_to_win == self.state.config.vps_to_win
    }

    /// `q` is the first seat at or over the target.
    pub open spec fn first_at_target(&self, q: int) -> bool {
        &&& 0 <= q < self.state.players@.len()
        &&& self.state.players@[q].spec_total_points() >= self.vps_to_win
        &&& forall|j: int| 0 <= j < q ==> #[trigger] self.state.players@[j].spec_total_points() < self.vps_to_win
    }

    /// The color that has won: the recorded winner of a completed game, else a
    /// player at or over the target (the current player first, then in seating order).
    pub open spec fn spec_winning_color(&self) -> Option<Color> {
        match self.state.phase {
            GamePhase::Completed { winner } => match winner {
                Some(w) => if w < self.state.players@.len() { Some(self.state.players@[w as int].color) } else { None },
                None => None,
            },
            _ => if self.state.players@[self.state.current_player as int].spec_total_points() >= self.vps_to_win {
                Some(self.state.players@[self.state.current_player as int].color)
            } else if exists|q: int| #[trigger] self.first_at_target(q) {
                let q = choose|q: int| #[trigger] self.first_at_target(q);
                Some(self.state.players@[q].color)
            } else {
                None
            },
        }
    }

    pub fn new(config: GameConfig) -> (g: Game)
        requires
            2 <= config.num_players <= 4,
        ensures
            g.wf(),
            g.seed == config.seed,
            g.vps_to_win == config.vps_to_win,
            g.state.config == config,
    {
        Game { seed: config.seed, id: fresh_id(), vps_to_win: config.vps_to_win, state: GameState::new(config) }
    }

    /// `after` is `before` with `a` applied and logged (its randomness resolved).
    pub open spec fn applied(before: GameState, after: GameState, a: GameAction) -> bool {
        &&& after.actions@.len() == before.actions@.len() + 1
        &&& after.actions@.drop_last() == before.actions@
        &&& after.actions@.last().player_index == a.player_index
        &&& after.actions@.last().action_type == a.action_type
        &&& phase_rank(after.phase) >= phase_rank(before.phase)
    }

    /// Applies an action; a rejected action changes nothing and is ignored.
    pub fn execute(&mut self, action: GameAction)
        requires
            old(self).wf(),
        ensures
            final(self).wf(),
            final(self).seed == old(self).seed && final(self).id == old(self).id && final(self).vps_to_win == old(self).vps_to_win,
            final(self).state == old(self).state || Game::applied(old(self).state, final(self).state, action),
            old(self).state.available_actions@.contains(action) ==> Game::applied(old(self).state, final(self).state, action),
            old(self).state.phase matches GamePhase::Completed { .. } ==> final(self).state == old(self).state,
            exists|r: Result<StepOutcome, GameError>| #[trigger] GameState::stepped(old(self).state, final(self).state, action, r),
    {
        let r = self.state.step(action);
        assert(GameState::stepped(old(self).state, self.state, action, r));
    }

    /// Asks the current seat's decision-maker for one of the legal actions and applies it.
    pub fn play_tick<P: BasePlayer>(&mut self, players: &[P]) -> (r: Option<GameAction>)
        requires
            old(self).wf(),
        ensures
            final(self).wf(),
            old(self).state.current_player >= players@.len() ==> r.is_none() && *final(self) == *old(self),
            old(self).state.available_actions@.len() == 0 ==> r.is_none() && *final(self) == *old(self),
            r.is_none() ==> *final(self) == *old(self),
            r matches Some(a) ==> final(self).seed == old(self).seed && final(self).id == old(self).id
                && final(self).vps_to_win == old(self).vps_to_win
                && (final(self).state == old(self).state || Game::applied(old(self).state, final(self).state, a))
                && (old(self).state.available_actions@.contains(a) ==> Game::applied(old(self).state, final(self).state, a))
                && exists|r: Result<StepOutcome, GameError>| #[trigger] GameState::stepped(old(self).state, final(self).state, a, r),
    {
        let current = self.state.current_player;
        if current >= players.len() {
            return None;
        }
        if self.state.available_actions.len() == 0 {
            return None;
        }
        let legal = self.state.available_actions.clone();
        let choice = players[current].decide(self, legal.as_slice());
        match choice {
            Some(action) => {
                self.execute(action);
                Some(action)
            },
            None => None,
        }
    }

    /// Plays ticks until a color has won, the turn limit is reached, or the tick
    /// budget runs out (a decision-maker that never acts cannot stall it), and
    /// returns the winning color, if any.
    pub fn play<P: BasePlayer>(&mut self, players: &[P]) -> (c: Option<Color>)
        requires
            old(self).wf(),
        ensures
            final(self).wf(),
            c == final(self).spec_winning_color(),
            final(self).seed == old(self).seed && final(self).id == old(self).id,
    {
        let mut ticks: u64 = 0;
        while ticks < TICKS_LIMIT
            invariant
                self.wf(),
                self.seed == old(self).seed && self.id == old(self).id,
            decreases TICKS_LIMIT - ticks,
        {
            if self.winning_color().is_some() || self.state.turn >= TURNS_LIMIT {
                break;
            }
            self.play_tick(players);
            ticks = ticks + 1;
        }
        self.winning_color()
    }

    pub fn winning_color(&self) -> (c: Option<Color>)
        requires
            self.wf(),
        ensures
            c == self.spec_winning_color(),
    {
        match self.state.phase {
            GamePhase::Completed { winner } => {
                return match winner {
                    Some(w) => if w < self.state.players.len() { Some(self.state.players[w].color) } else { None },
                    None => None,
                };
            },
            _ => {},
        }
        let current = self.state.current_player;
        if self.state.players[current].total_points() >= self.vps_to_win {
            return Some(self.state.players[current].color);
        }
        let mut q: usize = 0;
        while q < self.state.players.len()
            invariant
                self.wf(),
                !(self.state.phase matches GamePhase::Completed { .. }),
                self.state.players@[self.state.current_player as int].spec_total_points() < self.vps_to_win,
                0 <= q <= self.state.players@.len(),
                forall|j: int| 0 <= j < q ==> #[trigger] self.state.players@[j].spec_total_points() < self.vps_to_win,
            decreases self.state.players@.len() - q,
        {
            if self.state.players[q].total_points() >= self.vps_to_win {
                assert(self.first_at_target(q as int));
                let ghost w = choose|w: int| #[trigger] self.first_at_target(w);
                assert(w == q as int) by {
                    if w < q {
                        assert(self.state.players@[w].spec_total_points() < self.vps_to_win);
                    }
                    if w > q {
                        assert(self.state.players@[q as int].spec_total_points() < self.vps_to_win);
                    }
                }
                return Some(self.state.players[q].color);
            }
            q = q + 1;
        }
        assert forall|w: int| !#[trigger] self.first_at_target(w) by {
            if 0 <= w < self.state.players@.len() {
                assert(self.state.players@[w].spec_total_points() < self.vps_to_win);
            }
        }
        None
    }

}

} // verus!
