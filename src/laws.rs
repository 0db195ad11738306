use vstd::prelude::*;

use crate::action::{ActionPayload, GameAction};
use crate::board::{EdgeId, NodeId};
use crate::players::PlayerState;
use crate::state::{player_sum, GameState, Structure, SUPPLY_PER_RESOURCE};

verus! {

/// Cards in all hands together.
pub open spec fn cards_in_hands(ps: Seq<PlayerState>) -> int
    decreases ps.len(),
{
    if ps.len() == 0 {
        0
    } else {
        cards_in_hands(ps.drop_last()) + ps.last().resources.spec_total()
    }
}

proof fn lemma_cards_in_hands_split(ps: Seq<PlayerState>)
    ensures
        cards_in_hands(ps) == player_sum(ps, 0) + player_sum(ps, 1) + player_sum(ps, 2) + player_sum(ps, 3) + player_sum(ps, 4),
    decreases ps.len(),
{
    if ps.len() > 0 {
        lemma_cards_in_hands_split(ps.drop_last());
    }
}

/// Resource conservation: in every well-formed state (every state that `new` builds
/// and `step` leads to), the bank's cards plus all cards in hand make the full
/// supply, so no sequence of actions creates or destroys a card.
pub proof fn lemma_resource_conservation(s: GameState)
    requires
        s.wf(),
    ensures
        s.bank.resources.spec_total() + cards_in_hands(s.players@) == 5 * SUPPLY_PER_RESOURCE,
{
    lemma_cards_in_hands_split(s.players@);
    assert(s.bank.resources.at(0) + player_sum(s.players@, 0) == SUPPLY_PER_RESOURCE as int);
    assert(s.bank.resources.at(1) + player_sum(s.players@, 1) == SUPPLY_PER_RESOURCE as int);
    assert(s.bank.resources.at(2) + player_sum(s.players@, 2) == SUPPLY_PER_RESOURCE as int);
    assert(s.bank.resources.at(3) + player_sum(s.players@, 3) == SUPPLY_PER_RESOURCE as int);
    assert(s.bank.resources.at(4) + player_sum(s.players@, 4) == SUPPLY_PER_RESOURCE as int);
}

/// Occupancy consistency: in every well-formed state a node holds a settlement (or
/// city) of player `p` exactly when `p`'s own list has it, and a road record names
/// `p` exactly when `p`'s road list has the edge.
pub proof fn lemma_occupancy_consistency(s: GameState, p: int, n: NodeId, e: EdgeId)
    requires
        s.wf(),
        0 <= p < s.num_players(),
    ensures
        s.players@[p].settlements@.contains(n) <==> ((n as int) < s.node_occupancy@.len()
            && s.node_occupancy@[n as int] == Some(Structure::Settlement { player: p as usize })),
        s.players@[p].cities@.contains(n) <==> ((n as int) < s.node_occupancy@.len()
            && s.node_occupancy@[n as int] == Some(Structure::City { player: p as usize })),
        s.players@[p].roads@.contains(e) <==> s.road_occupancy@.contains((e, p as usize)),
{
}

/// Distance rule: in every well-formed state no two neighbouring nodes are both occupied.
pub proof fn lemma_distance_rule(s: GameState, a: int, b: int)
    requires
        s.wf(),
        s.map.adjacent(a, b),
    ensures
        !(s.occupied(a) && s.occupied(b)),
{
}

/// Each successful discard takes exactly one card from the discarding player and
/// lowers what it still owes by one.
proof fn lemma_discard_step(before: GameState, after: GameState, a: GameAction)
    requires
        GameState::discarded(before, after, a, true),
    ensures
        after.players@[before.current_player as int].resources.spec_total()
            == before.players@[before.current_player as int].resources.spec_total() - 1,
        after.discard_targets@[before.current_player as int] == before.discard_targets@[before.current_player as int] - 1,
{
    let c = before.current_player as int;
    if let ActionPayload::Resource(res) = a.payload {
        let ri = crate::types::spec_resource_index(res);
        assert(after.players@[c].resources.at(ri) == before.players@[c].resources.at(ri) - 1);
        assert forall|i: int| 0 <= i < 5 && i != ri implies after.players@[c].resources.at(i) == before.players@[c].resources.at(i) by {
            assert(after.bank.resources.at(i) == before.bank.resources.at(i));
        }
    }
}

/// Discarding on a seven: a player who held `t` cards when the seven was rolled and
/// owed `t / 2`, after that many successful discards holds `t - t / 2` cards and owes
/// nothing, so any further discard is refused.
pub proof fn lemma_discard_leaves_half(states: Seq<GameState>, acts: Seq<GameAction>, p: int, t: int)
    requires
        states.len() == acts.len() + 1,
        states[0].players@[p].resources.spec_total() == t,
        states[0].discard_targets@[p] == t / 2,
        acts.len() == t / 2,
        forall|i: int| 0 <= i < acts.len() ==> (#[trigger] states[i]).current_player == p
            && GameState::discarded(states[i], states[i + 1], acts[i], true),
    ensures
        states.last().players@[p].resources.spec_total() == t - t / 2,
        states.last().discard_targets@[p] == 0,
        states.last().current_player == p ==> forall|a: GameAction| !#[trigger] states.last().accepts_discard(a),
    decreases acts.len(),
{
    let k = acts.len() as int;
    assert forall|j: int| 0 <= j <= k implies #[trigger] states[j].players@[p].resources.spec_total() == t - j
        && states[j].discard_targets@[p] == t / 2 - j by {
        lemma_discard_prefix(states, acts, p, t, j);
    }
    assert(states.last() == states[k]);
}

proof fn lemma_discard_prefix(states: Seq<GameState>, acts: Seq<GameAction>, p: int, t: int, j: int)
    requires
        states.len() == acts.len() + 1,
        0 <= j <= acts.len(),
        states[0].players@[p].resources.spec_total() == t,
        states[0].discard_targets@[p] == t / 2,
        forall|i: int| 0 <= i < acts.len() ==> (#[trigger] states[i]).current_player == p
            && GameState::discarded(states[i], states[i + 1], acts[i], true),
    ensures
        states[j].players@[p].resources.spec_total() == t - j,
        states[j].discard_targets@[p] == t / 2 - j,
    decreases j,
{
    if j > 0 {
        lemma_discard_prefix(states, acts, p, t, j - 1);
        assert(states[j - 1].current_player == p);
        lemma_discard_step(states[j - 1], states[j], acts[j - 1]);
    }
}

} // verus!
