use vstd::prelude::*;

use crate::action::ActionPayload;
use crate::engine::single_bundle;
use crate::resources::ResourceBundle;
use crate::state::{GameError, GameState, TradeState};
use crate::types::{resource_at, spec_resource_index, ActionPrompt, Resource};

verus! {

/// The kind and count of a bundle that holds exactly one kind of card.
pub fn single_resource_bundle(b: &ResourceBundle) -> (r: Option<(Resource, u8)>)
    ensures
        match r {
            Some((res, n)) => n > 0 && b.count(res) == n
                && forall|j: int| 0 <= j < 5 && j != spec_resource_index(res) ==> #[trigger] b.at(j) == 0,
            None => forall|i: int| 0 <= i < 5 && #[trigger] b.at(i) > 0 ==> exists|j: int| 0 <= j < 5 && j != i && b.at(j) > 0,
        },
{
    let mut found: Option<usize> = None;
    let mut i: usize = 0;
    while i < 5
        invariant
            0 <= i <= 5,
            match found {
                Some(k) => k < i && b.at(k as int) > 0 && forall|j: int| 0 <= j < i && j != k ==> #[trigger] b.at(j) == 0,
                None => forall|j: int| 0 <= j < i ==> #[trigger] b.at(j) == 0,
            },
        decreases 5 - i,
    {
        if b.counts[i] > 0 {
            match found {
                Some(k) => {
                    assert(b.at(k as int) > 0);
                    assert forall|x: int| 0 <= x < 5 && #[trigger] b.at(x) > 0 implies exists|j: int| 0 <= j < 5 && j != x && b.at(j) > 0 by {
                        if x == k as int {
                            assert(b.at(i as int) > 0);
                        } else {
                            assert(b.at(k as int) > 0);
                        }
                    }
                    return None;
                },
                None => {
                    found = Some(i);
                },
            }
        }
        i = i + 1;
    }
    match found {
        Some(k) => {
            let res = resource_at(k);
            Some((res, b.counts[k]))
        },
        None => None,
    }
}

/// Same port kind (`None` is the generic port).
fn same_port(a: Option<Resource>, b: Option<Resource>) -> (r: bool)
    ensures
        r == (a == b),
{
    match (a, b) {
        (None, None) => true,
        (Some(x), Some(y)) => x == y,
        _ => false,
    }
}

impl GameState {
    /// Player `p` may give `give` to the bank for one card of kind `receive`: one kind
    /// only, other than `receive`, at exactly the player's rate, affordable, and the
    /// bank has the card.
    pub open spec fn maritime_ok(&self, p: int, give: ResourceBundle, receive: Resource) -> bool {
        &&& single_resource_bundle_spec_ok(give)
        &&& single_kind_of(give) != receive
        &&& give.count(single_kind_of(give)) == self.spec_maritime_rate(p, single_kind_of(give))
        &&& self.players@[p].resources.covers(give)
        &&& self.bank.resources.count(receive) > 0
    }

    /// Player `p` has a building on a node served by a port of kind `port`.
    pub open spec fn spec_has_port(&self, p: int, port: Option<Resource>) -> bool {
        exists|k: int| 0 <= k < self.map.port_nodes@.len() && #[trigger] self.map.port_nodes@[k].0 == port
            && self.occupied(self.map.port_nodes@[k].1 as int)
            && crate::state::structure_owner(self.node_occupancy@[self.map.port_nodes@[k].1 as int].unwrap()) == p
    }

    /// How many cards of one kind buy one card from the bank: 2 with a port of that
    /// kind, else 3 with a generic port, else 4.
    pub open spec fn spec_maritime_rate(&self, p: int, r: Resource) -> u8 {
        if self.spec_has_port(p, Some(r)) { 2 } else if self.spec_has_port(p, None) { 3 } else { 4 }
    }

    pub fn player_has_port(&self, p: usize, port: Option<Resource>) -> (b: bool)
        requires
            self.wf(),
        ensures
            b == self.spec_has_port(p as int, port),
    {
        let mut k: usize = 0;
        while k < self.map.port_nodes.len()
            invariant
                self.wf(),
                0 <= k <= self.map.port_nodes@.len(),
                forall|j: int| 0 <= j < k && #[trigger] self.map.port_nodes@[j].0 == port ==> !(self.occupied(self.map.port_nodes@[j].1 as int)
                    && crate::state::structure_owner(self.node_occupancy@[self.map.port_nodes@[j].1 as int].unwrap()) == p as int),
            decreases self.map.port_nodes@.len() - k,
        {
            let (kind, node) = self.map.port_nodes[k];
            if same_port(kind, port) {
                match self.node_owner(node) {
                    Some(o) => {
                        if o == p {
                            return true;
                        }
                    },
                    None => {},
                }
            }
            k = k + 1;
        }
        false
    }

    pub fn maritime_rate(&self, p: usize, r: Resource) -> (rate: u8)
        requires
            self.wf(),
        ensures
            rate == self.spec_maritime_rate(p as int, r),
    {
        if self.player_has_port(p, Some(r)) {
            return 2;
        }
        if self.player_has_port(p, None) {
            return 3;
        }
        4
    }

    /// Trades with the bank, after the roll: exactly the player's rate of one kind
    /// for one card of another kind.
    pub(crate) fn turn_maritime_trade(&mut self, p: usize, payload: ActionPayload) -> (r: Result<(), GameError>)
        requires
            old(self).wf(),
            p < old(self).num_players(),
        ensures
            final(self).handled(old(self), r.is_err()),
            r.is_ok() ==> (payload matches ActionPayload::MaritimeTrade { give, receive } && {
                let res = spec_resource_index(receive);
                &&& (forall|i: int| 0 <= i < 5 && i != res ==> #[trigger] final(self).players@[p as int].resources.at(i) == old(self).players@[p as int].resources.at(i) - give.at(i))
                &&& final(self).players@[p as int].resources.at(res) == old(self).players@[p as int].resources.at(res) + 1
                &&& (forall|i: int| 0 <= i < 5 && i != res ==> #[trigger] final(self).bank.resources.at(i) == old(self).bank.resources.at(i) + give.at(i))
                &&& final(self).bank.resources.at(res) == old(self).bank.resources.at(res) - 1
            }),
            r.is_ok() <==> !old(self).awaiting_roll
                && (payload matches ActionPayload::MaritimeTrade { give, receive } && old(self).maritime_ok(p as int, give, receive)),
            old(self).awaiting_roll ==> r == Err::<(), GameError>(GameError::IllegalAction),
            (payload matches ActionPayload::MaritimeTrade { give, receive } && !(single_resource_bundle_spec_ok(give)
                && single_kind_of(give) != receive
                && give.count(single_kind_of(give)) == old(self).spec_maritime_rate(p as int, single_kind_of(give))))
                ==> r == Err::<(), GameError>(GameError::IllegalAction),
            r.is_ok() ==> forall|q: int| 0 <= q < old(self).players@.len() && q != p ==> #[trigger] final(self).players@[q] == old(self).players@[q],
    {
        if self.awaiting_roll {
            return Err(GameError::IllegalAction);
        }
        let (give, receive) = match payload {
            ActionPayload::MaritimeTrade { give, receive } => (give, receive),
            _ => {
                return Err(GameError::InvalidPayload);
            },
        };
        let (resource, amount) = match single_resource_bundle(&give) {
            Some(x) => x,
            None => {
                proof {
                    if single_resource_bundle_spec_ok(give) {
                        let k = single_kind_of(give);
                        assert(give.at(spec_resource_index(k)) > 0);
                    }
                }
                return Err(GameError::IllegalAction);
            },
        };
        proof {
            lemma_single_kind(give, resource);
        }
        if resource == receive {
            return Err(GameError::IllegalAction);
        }
        let rate = self.maritime_rate(p, resource);
        if amount != rate {
            return Err(GameError::IllegalAction);
        }
        if !self.players[p].resources.can_afford(&give) {
            return Err(GameError::InsufficientResources);
        }
        if self.bank.available(receive) == 0 {
            return Err(GameError::BankOutOfResources);
        }
        let _ = self.player_to_bank(p, &give);
        let ghost mid = *self;
        let one = single_bundle(receive, 1);
        assert(give.at(spec_resource_index(receive)) == 0);
        assert(self.bank.resources.covers(one));
        self.bank_to_player(p, &one);
        assert forall|q: int| 0 <= q < old(self).players@.len() && q != p implies #[trigger] self.players@[q] == old(self).players@[q] by {
            assert(self.players@[q] == mid.players@[q]);
        }
        Ok(())
    }
}

impl GameState {
    /// Hands the decision to the next player waiting to answer the trade offer; when
    /// all have answered, the offerer picks a partner, or the offer lapses if nobody accepted.
    pub(crate) fn advance_trade_queue(&mut self)
        requires
            old(self).wf(),
        ensures
            final(self).handled(old(self), false),
            final(self).players == old(self).players,
            final(self).bank == old(self).bank,
            old(self).trade_queue@.len() > 0 ==> final(self).pending_prompt == ActionPrompt::DecideTrade
                && final(self).trade_state == old(self).trade_state
                && final(self).current_player == old(self).trade_queue@[0],
    {
        if self.trade_queue.len() > 0 {
            let next = self.trade_queue.remove(0);
            self.current_player = next;
            self.pending_prompt = ActionPrompt::DecideTrade;
            return;
        }
        match &self.trade_state {
            Some(state) => {
                let offerer = state.offerer;
                if state.acceptees.len() == 0 {
                    self.trade_state = None;
                    self.trade_queue.clear();
                    self.current_player = offerer;
                    self.pending_prompt = ActionPrompt::PlayTurn;
                } else {
                    self.current_player = offerer;
                    self.pending_prompt = ActionPrompt::DecideAcceptees;
                }
            },
            None => {
                self.pending_prompt = ActionPrompt::PlayTurn;
                self.current_player = self.turn_owner;
            },
        }
    }

    /// Offers `give` for `receive` to every other player, in seating order after the offerer.
    pub(crate) fn turn_offer_trade(&mut self, p: usize, payload: ActionPayload) -> (r: Result<(), GameError>)
        requires
            old(self).wf(),
            p < old(self).num_players(),
        ensures
            final(self).handled(old(self), r.is_err()),
            final(self).players == old(self).players,
            final(self).bank == old(self).bank,
            r.is_ok() ==> final(self).trade_state.is_some() && final(self).trade_state.unwrap().offerer == p
                && final(self).pending_prompt == ActionPrompt::DecideTrade,
    {
        if self.awaiting_roll {
            return Err(GameError::IllegalAction);
        }
        let (give, receive) = match payload {
            ActionPayload::Trade { give, receive, .. } => (give, receive),
            _ => {
                return Err(GameError::InvalidPayload);
            },
        };
        if give.is_empty() || receive.is_empty() {
            return Err(GameError::IllegalAction);
        }
        if self.trade_state.is_some() {
            return Err(GameError::IllegalAction);
        }
        if !self.players[p].resources.can_afford(&give) {
            return Err(GameError::InsufficientResources);
        }
        let n = self.players.len();
        let mut queue: Vec<usize> = Vec::new();
        let mut offset: usize = 1;
        while offset < n
            invariant
                2 <= n <= 4,
                p < n,
                1 <= offset <= n,
                queue@.len() == offset - 1,
                forall|k: int| 0 <= k < queue@.len() ==> #[trigger] queue@[k] < n && queue@[k] != p,
            decreases n - offset,
        {
            let seat = if p + offset < n { p + offset } else { p + offset - n };
            queue.push(seat);
            offset = offset + 1;
        }
        self.trade_state = Some(TradeState { offerer: p, give, receive, acceptees: Vec::new() });
        self.trade_queue = queue;
        self.advance_trade_queue();
        Ok(())
    }
}

/// `b` holds cards of exactly one kind.
pub open spec fn single_resource_bundle_spec_ok(b: ResourceBundle) -> bool {
    exists|r: Resource| #[trigger] b.count(r) > 0 && forall|j: int| 0 <= j < 5 && j != spec_resource_index(r) ==> #[trigger] b.at(j) == 0
}

/// The kind of a bundle that holds exactly one kind of card.
pub open spec fn single_kind_of(b: ResourceBundle) -> Resource {
    choose|r: Resource| #[trigger] b.count(r) > 0 && forall|j: int| 0 <= j < 5 && j != spec_resource_index(r) ==> #[trigger] b.at(j) == 0
}

pub proof fn lemma_single_kind(b: ResourceBundle, r: Resource)
    requires
        b.count(r) > 0,
        forall|j: int| 0 <= j < 5 && j != spec_resource_index(r) ==> #[trigger] b.at(j) == 0,
    ensures
        single_resource_bundle_spec_ok(b),
        single_kind_of(b) == r,
{
    let s = single_kind_of(b);
    assert(single_resource_bundle_spec_ok(b));
    if s != r {
        assert(b.at(spec_resource_index(r)) > 0);
    }
}

} // verus!
