use vstd::prelude::*;
use vstd::multiset::Multiset;

use rand::rngs::StdRng;

use crate::chance::shuffle_in_place;
use crate::resources::{cost_development, sat_sum_counts, ResourceBundle, ResourceError};
use crate::types::{DevelopmentCard, Resource};

verus! {

broadcast use vstd::seq_lib::group_to_multiset_ensures;

/// Supply of each resource kind when a game starts.
pub const BANK_SUPPLY: u8 = 19;

/// The global resource supply and the development-card deck.
#[derive(Debug, Clone)]
pub struct Bank {
    pub resources: ResourceBundle,
    pub development_deck: Vec<DevelopmentCard>,
}

/// How many cards of each kind the development deck starts with.
pub open spec fn standard_card_count(c: DevelopmentCard) -> nat {
    match c {
        DevelopmentCard::Knight => 14,
        DevelopmentCard::VictoryPoint => 5,
        DevelopmentCard::RoadBuilding => 2,
        DevelopmentCard::YearOfPlenty => 2,
        DevelopmentCard::Monopoly => 2,
    }
}

/// Number of copies of `c` in `s`.
pub open spec fn card_count(s: Seq<DevelopmentCard>, c: DevelopmentCard) -> nat
    decreases s.len(),
{
    if s.len() == 0 {
        0
    } else {
        card_count(s.drop_last(), c) + if s.last() == c { 1nat } else { 0nat }
    }
}

pub proof fn lemma_card_count_push(s: Seq<DevelopmentCard>, x: DevelopmentCard, c: DevelopmentCard)
    ensures
        card_count(s.push(x), c) == card_count(s, c) + if x == c { 1nat } else { 0nat },
{
    assert(s.push(x).drop_last() =~= s);
}

/// `card_count` agrees with the multiset of the sequence.
pub proof fn lemma_card_count_multiset(s: Seq<DevelopmentCard>, c: DevelopmentCard)
    ensures
        card_count(s, c) == s.to_multiset().count(c),
    decreases s.len(),
{
    if s.len() > 0 {
        lemma_card_count_multiset(s.drop_last(), c);
        assert(s.drop_last().push(s.last()) =~= s);
    } else {
        assert(s.to_multiset() =~= Multiset::empty());
    }
}

/// Counting over a concatenation adds up.
pub proof fn lemma_card_count_concat(a: Seq<DevelopmentCard>, b: Seq<DevelopmentCard>, c: DevelopmentCard)
    ensures
        card_count(a + b, c) == card_count(a, c) + card_count(b, c),
    decreases b.len(),
{
    if b.len() == 0 {
        assert(a + b =~= a);
    } else {
        lemma_card_count_concat(a, b.drop_last(), c);
        assert((a + b).drop_last() =~= a + b.drop_last());
    }
}

/// Removing the element at `i` removes one copy of it.
pub proof fn lemma_card_count_remove(s: Seq<DevelopmentCard>, i: int, c: DevelopmentCard)
    requires
        0 <= i < s.len(),
    ensures
        card_count(s.remove(i), c) + (if s[i] == c { 1nat } else { 0nat }) == card_count(s, c),
{
    lemma_card_count_multiset(s, c);
    lemma_card_count_multiset(s.remove(i), c);
}

/// Appends `n` copies of `card`.
fn push_copies(deck: &mut Vec<DevelopmentCard>, card: DevelopmentCard, n: usize)
    requires
        old(deck)@.len() + n <= usize::MAX,
    ensures
        final(deck)@.len() == old(deck)@.len() + n,
        forall|c: DevelopmentCard| #[trigger] card_count(final(deck)@, c) == card_count(old(deck)@, c) + if c == card { n as nat } else { 0nat },
{
    let mut i: usize = 0;
    while i < n
        invariant
            0 <= i <= n,
            deck@.len() == old(deck)@.len() + i,
            old(deck)@.len() + n <= usize::MAX,
            forall|c: DevelopmentCard| #[trigger] card_count(deck@, c) == card_count(old(deck)@, c) + if c == card { i as nat } else { 0nat },
        decreases n - i,
    {
        proof {
            assert forall|c: DevelopmentCard| #[trigger] card_count(deck@.push(card), c) == card_count(deck@, c) + if c == card { 1nat } else { 0nat } by {
                lemma_card_count_push(deck@, card, c);
            }
        }
        deck.push(card);
        i = i + 1;
    }
}

/// The unshuffled deck: 14 Knight, 5 VictoryPoint, 2 each of the others.
pub fn build_development_deck() -> (deck: Vec<DevelopmentCard>)
    ensures
        deck@.len() == 25,
        forall|c: DevelopmentCard| #[trigger] card_count(deck@, c) == standard_card_count(c),
{
    let mut deck: Vec<DevelopmentCard> = Vec::new();
    assert(forall|c: DevelopmentCard| #[trigger] card_count(deck@, c) == 0);
    push_copies(&mut deck, DevelopmentCard::Knight, 14);
    push_copies(&mut deck, DevelopmentCard::VictoryPoint, 5);
    push_copies(&mut deck, DevelopmentCard::RoadBuilding, 2);
    push_copies(&mut deck, DevelopmentCard::YearOfPlenty, 2);
    push_copies(&mut deck, DevelopmentCard::Monopoly, 2);
    deck
}

impl Bank {
    /// Every resource at full supply and the standard deck in shuffled order.
    pub fn standard(rng: &mut StdRng) -> (b: Bank)
        ensures
            forall|i: int| 0 <= i < 5 ==> #[trigger] b.resources.at(i) == BANK_SUPPLY,
            b.development_deck@.len() == 25,
            forall|c: DevelopmentCard| #[trigger] card_count(b.development_deck@, c) == standard_card_count(c),
    {
        let mut deck = build_development_deck();
        let ghost before = deck@;
        shuffle_in_place(&mut deck, rng);
        proof {
            assert forall|c: DevelopmentCard| #[trigger] card_count(deck@, c) == standard_card_count(c) by {
                lemma_card_count_multiset(deck@, c);
                lemma_card_count_multiset(before, c);
            }
        }
        Bank { resources: ResourceBundle::from_counts([BANK_SUPPLY, BANK_SUPPLY, BANK_SUPPLY, BANK_SUPPLY, BANK_SUPPLY]), development_deck: deck }
    }

    pub open spec fn spec_resources(&self) -> ResourceBundle {
        self.resources
    }

    pub open spec fn deck(&self) -> Seq<DevelopmentCard> {
        self.development_deck@
    }

    pub fn resources(&self) -> (r: &ResourceBundle)
        ensures
            *r == self.resources,
    {
        &self.resources
    }

    /// Takes cards into the supply.
    pub fn receive(&mut self, bundle: &ResourceBundle)
        ensures
            final(self).resources.counts@ == old(self).resources.saturating_sum(*bundle),
            final(self).development_deck == old(self).development_deck,
    {
        let mut updated = self.resources;
        updated.add_bundle(bundle);
        self.resources = updated;
    }

    /// Hands out a bundle, or nothing when any kind is short.
    pub fn dispense(&mut self, bundle: &ResourceBundle) -> (r: Result<(), ResourceError>)
        ensures
            r.is_ok() <==> old(self).resources.covers(*bundle),
            r.is_ok() ==> forall|i: int| 0 <= i < 5 ==> #[trigger] final(self).resources.at(i) == old(self).resources.at(i) - bundle.at(i),
            r.is_ok() ==> final(self).development_deck == old(self).development_deck,
            r.is_err() ==> *final(self) == *old(self),
    {
        let mut updated = self.resources;
        match updated.subtract_bundle(bundle) {
            Ok(()) => {
                self.resources = updated;
                Ok(())
            },
            Err(e) => Err(e),
        }
    }

    /// Takes the top card of the deck, if any, without charging for it.
    pub fn draw_development_card(&mut self) -> (c: Option<DevelopmentCard>)
        ensures
            old(self).development_deck@.len() == 0 ==> c.is_none() && final(self).development_deck@ == old(self).development_deck@,
            old(self).development_deck@.len() > 0 ==> c == Some(old(self).development_deck@.last())
                && final(self).development_deck@ == old(self).development_deck@.drop_last(),
            final(self).resources == old(self).resources,
    {
        self.development_deck.pop()
    }

    /// Charges the development-card price to `player_resources`, credits it to the supply,
    /// reshuffles the deck and takes its top card (none when the deck is empty).
    pub fn buy_development_card(
        &mut self,
        rng: &mut StdRng,
        player_resources: &mut ResourceBundle,
    ) -> (r: Result<Option<DevelopmentCard>, ResourceError>)
        ensures
            r.is_ok() <==> old(player_resources).covers_counts(development_price()),
            r.is_err() ==> *final(self) == *old(self) && *final(player_resources) == *old(player_resources),
            r.is_ok() ==> forall|i: int| 0 <= i < 5 ==> #[trigger] final(player_resources).at(i) == old(player_resources).at(i) - development_price()[i],
            r.is_ok() ==> final(self).resources.counts@ == sat_sum_counts(old(self).resources.counts@, development_price()),
            r.is_ok() && old(self).development_deck@.len() == 0 ==> r == Ok::<Option<DevelopmentCard>, ResourceError>(None) && final(self).development_deck@.len() == 0,
            r.is_ok() && old(self).development_deck@.len() > 0 ==> r.unwrap().is_some()
                && final(self).development_deck@.len() == old(self).development_deck@.len() - 1
                && forall|c: DevelopmentCard| #[trigger] card_count(final(self).development_deck@, c) + (if r.unwrap() == Some(c) { 1nat } else { 0nat }) == card_count(old(self).development_deck@, c),
    {
        let cost = cost_development();
        match player_resources.subtract_bundle(&cost) {
            Ok(()) => {},
            Err(e) => {
                return Err(e);
            },
        }
        self.resources.add_bundle(&cost);
        if self.development_deck.len() == 0 {
            return Ok(None);
        }
        let ghost before = self.development_deck@;
        shuffle_in_place(&mut self.development_deck, rng);
        let ghost shuffled = self.development_deck@;
        let card = self.development_deck.pop();
        proof {
            assert forall|c: DevelopmentCard| #[trigger] card_count(self.development_deck@, c) + (if card == Some(c) { 1nat } else { 0nat }) == card_count(before, c) by {
                lemma_card_count_multiset(before, c);
                lemma_card_count_multiset(shuffled, c);
                assert(self.development_deck@.push(shuffled.last()) =~= shuffled);
                lemma_card_count_push(self.development_deck@, shuffled.last(), c);
            }
        }
        Ok(card)
    }

    /// Whether the deck holds a card of kind `card`.
    pub fn has_development_card(&self, card: DevelopmentCard) -> (b: bool)
        ensures
            b == (card_count(self.development_deck@, card) > 0),
    {
        let mut i: usize = 0;
        while i < self.development_deck.len()
            invariant
                0 <= i <= self.development_deck@.len(),
                card_count(self.development_deck@.subrange(0, i as int), card) == 0,
            decreases self.development_deck@.len() - i,
        {
            assert(self.development_deck@.subrange(0, i + 1).drop_last() =~= self.development_deck@.subrange(0, i as int));
            if self.development_deck[i] == card {
                let ghost d = self.development_deck@;
                assert(card_count(d.subrange(0, i + 1), card) == 1);
                assert(d =~= d.subrange(0, i + 1) + d.subrange(i + 1, d.len() as int));
                proof {
                    lemma_card_count_concat(d.subrange(0, i + 1), d.subrange(i + 1, d.len() as int), card);
                }
                return true;
            }
            i = i + 1;
        }
        assert(self.development_deck@.subrange(0, i as int) =~= self.development_deck@);
        false
    }

    /// Takes one card of kind `card` out of the deck, reporting whether there was one.
    pub fn take_development_card(&mut self, card: DevelopmentCard) -> (b: bool)
        ensures
            b == (card_count(old(self).development_deck@, card) > 0),
            forall|c: DevelopmentCard| #[trigger] card_count(final(self).development_deck@, c) + (if b && c == card { 1nat } else { 0nat })
                == card_count(old(self).development_deck@, c),
            b ==> final(self).development_deck@.len() + 1 == old(self).development_deck@.len(),
            !b ==> final(self).development_deck@ == old(self).development_deck@,
            final(self).resources == old(self).resources,
    {
        let mut i: usize = 0;
        while i < self.development_deck.len()
            invariant
                0 <= i <= self.development_deck@.len(),
                card_count(self.development_deck@.subrange(0, i as int), card) == 0,
                *self == *old(self),
            decreases self.development_deck@.len() - i,
        {
            assert(self.development_deck@.subrange(0, i + 1).drop_last() =~= self.development_deck@.subrange(0, i as int));
            if self.development_deck[i] == card {
                proof {
                    let d = self.development_deck@;
                    assert forall|c: DevelopmentCard| #[trigger] card_count(d.remove(i as int), c) + (if c == card { 1nat } else { 0nat }) == card_count(d, c) by {
                        lemma_card_count_remove(d, i as int, c);
                    }
                    assert(card_count(d.subrange(0, i + 1), card) == 1);
                    assert(d =~= d.subrange(0, i + 1) + d.subrange(i + 1, d.len() as int));
                    lemma_card_count_concat(d.subrange(0, i + 1), d.subrange(i + 1, d.len() as int), card);
                }
                self.development_deck.remove(i);
                return true;
            }
            i = i + 1;
        }
        assert(self.development_deck@.subrange(0, i as int) =~= self.development_deck@);
        false
    }

    /// Number of cards of kind `resource` in the supply.
    pub fn available(&self, resource: Resource) -> (n: u8)
        ensures
            n == self.resources.count(resource),
    {
        self.resources.get(resource)
    }

    pub fn development_deck_len(&self) -> (n: usize)
        ensures
            n == self.development_deck@.len(),
    {
        self.development_deck.len()
    }
}

/// The development-card price, counter by counter.
pub open spec fn development_price() -> Seq<u8> {
    seq![0u8, 0, 1, 1, 1]
}

} // verus!
