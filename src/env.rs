use vstd::prelude::*;

use crate::action::GameAction;
use crate::players::PlayerState;
use crate::state::{GameConfig, GameError, GameEvent, GameState};
use crate::types::{ActionPrompt, Color};

verus! {

/// What a learning agent sees of one player.
#[derive(Debug, Clone, Copy, PartialEq, Eq)]
pub struct PlayerObservation {
    pub color: Color,
    pub resources: [u8; 5],
    pub dev_cards: usize,
    pub fresh_dev_cards: usize,
    pub settlements: usize,
    pub cities: usize,
    pub roads: usize,
    pub victory_points: u8,
}

/// What a learning agent sees of the game.
#[derive(Debug, Clone, PartialEq, Eq)]
pub struct Observation {
    pub current_player: usize,
    pub pending_prompt: ActionPrompt,
    pub turn: u32,
    pub last_roll: Option<(u8, u8)>,
    pub players: Vec<PlayerObservation>,
}

/// The result of one environment step.
#[derive(Debug, Clone)]
pub struct StepResult {
    pub observation: Observation,
    pub rewards: Vec<i8>,
    pub done: bool,
    pub events: Vec<GameEvent>,
}

/// The observation of one player.
pub open spec fn observes(o: PlayerObservation, p: PlayerState) -> bool {
    &&& o.color == p.color
    &&& o.resources@ == p.resources.counts@
    &&& o.dev_cards == p.dev_cards@.len()
    &&& o.fresh_dev_cards == p.fresh_dev_cards@.len()
    &&& o.settlements == p.settlements@.len()
    &&& o.cities == p.cities@.len()
    &&& o.roads == p.roads@.len()
    &&& o.victory_points == p.spec_total_points()
}

/// A projection of the public fields of the state.
pub fn observation_from_state(state: &GameState) -> (o: Observation)
    requires
        state.wf(),
    ensures
        o.current_player == state.current_player,
        o.pending_prompt == state.pending_prompt,
        o.turn == state.turn,
        o.last_roll == state.last_roll,
        o.players@.len() == state.players@.len(),
        forall|q: int| 0 <= q < o.players@.len() ==> observes(#[trigger] o.players@[q], state.players@[q]),
{
    let mut players: Vec<PlayerObservation> = Vec::new();
    let mut q: usize = 0;
    while q < state.players.len()
        invariant
            state.wf(),
            0 <= q <= state.players@.len(),
            players@.len() == q,
            forall|j: int| 0 <= j < q ==> observes(#[trigger] players@[j], state.players@[j]),
        decreases state.players@.len() - q,
    {
        let p = &state.players[q];
        assert(p.wf());
        players.push(PlayerObservation {
            color: p.color,
            resources: p.resources.counts(),
            dev_cards: p.dev_cards.len(),
            fresh_dev_cards: p.fresh_dev_cards.len(),
            settlements: p.settlements.len(),
            cities: p.cities.len(),
            roads: p.roads.len(),
            victory_points: p.total_points(),
        });
        q = q + 1;
    }
    Observation {
        current_player: state.current_player,
        pending_prompt: state.legal_action_prompt(),
        turn: state.turn,
        last_roll: state.last_roll,
        players,
    }
}

/// A step-and-observe interface over one game.
#[derive(Debug, Clone)]
pub struct RustEnv {
    pub state: GameState,
}

impl RustEnv {
    pub fn new(config: GameConfig) -> (e: RustEnv)
        requires
            2 <= config.num_players <= 4,
        ensures
            e.state.valid(),
            e.state.config == config,
    {
        RustEnv { state: GameState::new(config) }
    }

    pub fn reset(&mut self) -> (o: Observation)
        requires
            old(self).state.valid(),
        ensures
            final(self).state.valid(),
            final(self).state.config == old(self).state.config,
            o.current_player == final(self).state.current_player,
    {
        self.state.reset();
        observation_from_state(&self.state)
    }

    /// Steps the game; the observation is taken after the step.
    pub fn step(&mut self, action: GameAction) -> (r: Result<StepResult, GameError>)
        requires
            old(self).state.valid(),
        ensures
            final(self).state.valid(),
            r.is_err() ==> final(self).state == old(self).state,
            old(self).state.available_actions@.contains(action) ==> r.is_ok(),
            exists|o: Result<crate::state::StepOutcome, GameError>| #[trigger] GameState::stepped(old(self).state, final(self).state, action, o)
                && o.is_ok() == r.is_ok(),
            r.is_ok() ==> crate::game::Game::applied(old(self).state, final(self).state, action),
            r.is_ok() ==> r.unwrap().observation.current_player == final(self).state.current_player
                && r.unwrap().observation.pending_prompt == final(self).state.pending_prompt
                && r.unwrap().observation.turn == final(self).state.turn
                && r.unwrap().observation.last_roll == final(self).state.last_roll
                && r.unwrap().observation.players@.len() == final(self).state.players@.len()
                && (forall|q: int| 0 <= q < final(self).state.players@.len()
                    ==> observes(#[trigger] r.unwrap().observation.players@[q], final(self).state.players@[q])),
            r.is_ok() ==> r.unwrap().rewards@.len() == final(self).state.num_players()
                && (r.unwrap().done <==> final(self).state.phase matches crate::state::GamePhase::Completed { .. }),
            r.is_ok() ==> match final(self).state.phase {
                crate::state::GamePhase::Completed { winner: Some(w) } => forall|q: int| 0 <= q < final(self).state.num_players()
                    ==> #[trigger] r.unwrap().rewards@[q] == if q == w { 1i8 } else { -1i8 },
                _ => forall|q: int| 0 <= q < final(self).state.num_players() ==> #[trigger] r.unwrap().rewards@[q] == 0i8,
            },
            old(self).state.phase matches crate::state::GamePhase::Completed { .. } ==> r == Err::<StepResult, GameError>(GameError::GameFinished),
    {
        let res = self.state.step(action);
        assert(GameState::stepped(old(self).state, self.state, action, res));
        match res {
            Ok(outcome) => Ok(StepResult {
                observation: observation_from_state(&self.state),
                rewards: outcome.rewards,
                done: outcome.done,
                events: outcome.events,
            }),
            Err(e) => Err(e),
        }
    }

    pub fn pending_prompt(&self) -> (p: ActionPrompt)
        ensures
            p == self.state.pending_prompt,
    {
        self.state.legal_action_prompt()
    }

    pub fn current_player(&self) -> (p: usize)
        ensures
            p == self.state.current_player,
    {
        self.state.current_player
    }

    pub fn game_state(&self) -> (s: &GameState)
        ensures
            *s == self.state,
    {
        &self.state
    }
}

} // verus!
