use vstd::prelude::*;

use crate::bank::{card_count, lemma_card_count_concat, lemma_card_count_remove};
use crate::board::{EdgeId, NodeId};
use crate::resources::{sat_sum_counts, ResourceBundle, ResourceError};
use crate::types::{Color, DevelopmentCard};

verus! {

pub const MAX_ROADS: usize = 15;
pub const MAX_SETTLEMENTS: usize = 5;
pub const MAX_CITIES: usize = 4;

/// One player's holdings, buildings and bonuses.
#[derive(Debug, Clone)]
pub struct PlayerState {
    pub color: Color,
    pub resources: ResourceBundle,
    /// Cards that may be played.
    pub dev_cards: Vec<DevelopmentCard>,
    /// Cards bought this turn, playable from the owner's next turn on.
    pub fresh_dev_cards: Vec<DevelopmentCard>,
    pub roads: Vec<EdgeId>,
    pub settlements: Vec<NodeId>,
    pub cities: Vec<NodeId>,
    pub victory_points: u8,
    pub knights_played: u8,
    pub has_longest_road: bool,
    pub has_largest_army: bool,
    pub has_rolled: bool,
    pub has_played_dev_card_this_turn: bool,
    /// How many cards of each kind were played, indexed by `dev_card_index`.
    pub played_dev_cards: [u32; 5],
}

pub open spec fn spec_dev_card_index(c: DevelopmentCard) -> int {
    match c {
        DevelopmentCard::Knight => 0,
        DevelopmentCard::YearOfPlenty => 1,
        DevelopmentCard::Monopoly => 2,
        DevelopmentCard::RoadBuilding => 3,
        DevelopmentCard::VictoryPoint => 4,
    }
}

pub fn dev_card_index(c: DevelopmentCard) -> (i: usize)
    ensures
        i == spec_dev_card_index(c),
        i < 5,
{
    match c {
        DevelopmentCard::Knight => 0,
        DevelopmentCard::YearOfPlenty => 1,
        DevelopmentCard::Monopoly => 2,
        DevelopmentCard::RoadBuilding => 3,
        DevelopmentCard::VictoryPoint => 4,
    }
}

impl PlayerState {
    /// Building limits hold, and no node is held twice or both as settlement and city.
    pub open spec fn wf(&self) -> bool {
        &&& self.settlements@.len() <= MAX_SETTLEMENTS
        &&& self.cities@.len() <= MAX_CITIES
        &&& self.roads@.len() <= MAX_ROADS
        &&& self.settlements@.no_duplicates()
        &&& self.cities@.no_duplicates()
        &&& self.roads@.no_duplicates()
        &&& forall|n: NodeId| self.settlements@.contains(n) ==> !self.cities@.contains(n)
    }

    pub open spec fn spec_bonus_points(&self) -> int {
        (if self.has_longest_road { 2int } else { 0int }) + (if self.has_largest_army { 2int } else { 0int })
    }

    /// Points that other players can see: buildings and bonuses.
    pub open spec fn spec_public_points(&self) -> int {
        self.settlements@.len() + 2 * self.cities@.len() + self.spec_bonus_points()
    }

    /// All points, hidden victory-point cards included, capped at the largest `u8`.
    pub open spec fn spec_total_points(&self) -> int {
        let t = self.spec_public_points() + self.victory_points;
        if t > 255 { 255 } else { t }
    }

    pub fn new(color: Color) -> (p: PlayerState)
        ensures
            p.wf(),
            p.color == color,
            p.resources.is_zero(),
            p.dev_cards@.len() == 0,
            p.fresh_dev_cards@.len() == 0,
            p.roads@.len() == 0,
            p.settlements@.len() == 0,
            p.cities@.len() == 0,
            p.victory_points == 0,
            p.knights_played == 0,
            !p.has_longest_road,
            !p.has_largest_army,
            !p.has_rolled,
            !p.has_played_dev_card_this_turn,
            forall|i: int| 0 <= i < 5 ==> p.played_dev_cards@[i] == 0,
    {
        PlayerState {
            color,
            resources: ResourceBundle::zero(),
            dev_cards: Vec::new(),
            fresh_dev_cards: Vec::new(),
            roads: Vec::new(),
            settlements: Vec::new(),
            cities: Vec::new(),
            victory_points: 0,
            knights_played: 0,
            has_longest_road: false,
            has_largest_army: false,
            has_rolled: false,
            has_played_dev_card_this_turn: false,
            played_dev_cards: [0u32; 5],
        }
    }

    /// Cards bought last turn become playable, and the per-turn flags are cleared.
    pub fn reset_for_new_turn(&mut self)
        ensures
            final(self).dev_cards@ == old(self).dev_cards@ + old(self).fresh_dev_cards@,
            final(self).fresh_dev_cards@.len() == 0,
            !final(self).has_rolled,
            !final(self).has_played_dev_card_this_turn,
            *final(self) == (PlayerState {
                dev_cards: final(self).dev_cards,
                fresh_dev_cards: final(self).fresh_dev_cards,
                has_rolled: false,
                has_played_dev_card_this_turn: false,
                ..*old(self)
            }),
            final(self).resources == old(self).resources,
            final(self).roads == old(self).roads,
            final(self).settlements == old(self).settlements,
            final(self).cities == old(self).cities,
            final(self).victory_points == old(self).victory_points,
            final(self).knights_played == old(self).knights_played,
            final(self).has_longest_road == old(self).has_longest_road,
            final(self).has_largest_army == old(self).has_largest_army,
            final(self).color == old(self).color,
    {
        self.dev_cards.append(&mut self.fresh_dev_cards);
        self.has_rolled = false;
        self.has_played_dev_card_this_turn = false;
    }

    pub fn add_resources(&mut self, bundle: &ResourceBundle)
        ensures
            final(self).resources.counts@ == sat_sum_counts(old(self).resources.counts@, bundle.counts@),
            *final(self) == (PlayerState { resources: final(self).resources, ..*old(self) }),
    {
        self.resources.add_bundle(bundle);
    }

    pub fn remove_resources(&mut self, bundle: &ResourceBundle) -> (r: Result<(), ResourceError>)
        ensures
            r.is_ok() <==> old(self).resources.covers(*bundle),
            r.is_ok() ==> forall|i: int| 0 <= i < 5 ==> #[trigger] final(self).resources.at(i) == old(self).resources.at(i) - bundle.at(i),
            r.is_err() ==> *final(self) == *old(self),
            *final(self) == (PlayerState { resources: final(self).resources, ..*old(self) }),
    {
        self.resources.subtract_bundle(bundle)
    }

    /// A bought card joins the fresh pool; a victory-point card scores at once.
    pub fn add_dev_card(&mut self, card: DevelopmentCard)
        ensures
            final(self).fresh_dev_cards@ == old(self).fresh_dev_cards@.push(card),
            final(self).victory_points == if card == DevelopmentCard::VictoryPoint {
                if old(self).victory_points == 255 { 255 } else { (old(self).victory_points + 1) as u8 }
            } else {
                old(self).victory_points
            },
            *final(self) == (PlayerState { fresh_dev_cards: final(self).fresh_dev_cards, victory_points: final(self).victory_points, ..*old(self) }),
    {
        self.fresh_dev_cards.push(card);
        if card == DevelopmentCard::VictoryPoint {
            self.victory_points = self.victory_points.saturating_add(1);
        }
    }

    /// Counts a played card and marks that a card was played this turn.
    pub fn record_dev_card_play(&mut self, card: DevelopmentCard)
        ensures
            final(self).has_played_dev_card_this_turn,
            final(self).knights_played == if card == DevelopmentCard::Knight {
                if old(self).knights_played == 255 { 255 } else { (old(self).knights_played + 1) as u8 }
            } else {
                old(self).knights_played
            },
            final(self).played_dev_cards@ == old(self).played_dev_cards@.update(
                spec_dev_card_index(card),
                if old(self).played_dev_cards@[spec_dev_card_index(card)] == u32::MAX { u32::MAX } else { (old(self).played_dev_cards@[spec_dev_card_index(card)] + 1) as u32 },
            ),
            *final(self) == (PlayerState {
                has_played_dev_card_this_turn: true,
                knights_played: final(self).knights_played,
                played_dev_cards: final(self).played_dev_cards,
                ..*old(self)
            }),
    {
        let idx = dev_card_index(card);
        self.played_dev_cards[idx] = self.played_dev_cards[idx].saturating_add(1);
        if card == DevelopmentCard::Knight {
            self.knights_played = self.knights_played.saturating_add(1);
        }
        self.has_played_dev_card_this_turn = true;
    }

    /// Number of playable cards of kind `card`.
    pub fn matured_dev_card_count(&self, card: DevelopmentCard) -> (n: usize)
        ensures
            n == card_count(self.dev_cards@, card),
    {
        let mut n: usize = 0;
        let mut i: usize = 0;
        while i < self.dev_cards.len()
            invariant
                0 <= i <= self.dev_cards@.len(),
                n == card_count(self.dev_cards@.subrange(0, i as int), card),
                n <= i,
            decreases self.dev_cards@.len() - i,
        {
            assert(self.dev_cards@.subrange(0, i + 1).drop_last() =~= self.dev_cards@.subrange(0, i as int));
            if self.dev_cards[i] == card {
                n = n + 1;
            }
            i = i + 1;
        }
        assert(self.dev_cards@.subrange(0, i as int) =~= self.dev_cards@);
        n
    }

    /// A card of kind `card` may be played now.
    pub fn can_play_dev_card(&self, card: DevelopmentCard) -> (b: bool)
        ensures
            b == (!self.has_played_dev_card_this_turn && card_count(self.dev_cards@, card) > 0),
    {
        if self.has_played_dev_card_this_turn {
            return false;
        }
        self.matured_dev_card_count(card) > 0
    }

    /// Removes one playable card of kind `card`, reporting whether there was one.
    pub fn consume_dev_card(&mut self, card: DevelopmentCard) -> (b: bool)
        ensures
            b == (card_count(old(self).dev_cards@, card) > 0),
            b ==> exists|i: int| 0 <= i < old(self).dev_cards@.len() && old(self).dev_cards@[i] == card
                && (forall|j: int| 0 <= j < i ==> #[trigger] old(self).dev_cards@[j] != card)
                && final(self).dev_cards@ == old(self).dev_cards@.remove(i),
            !b ==> final(self).dev_cards@ == old(self).dev_cards@,
            forall|c: DevelopmentCard| #[trigger] card_count(final(self).dev_cards@, c) + (if b && c == card { 1nat } else { 0nat }) == card_count(old(self).dev_cards@, c),
            *final(self) == (PlayerState { dev_cards: final(self).dev_cards, ..*old(self) }),
    {
        let mut i: usize = 0;
        while i < self.dev_cards.len()
            invariant
                0 <= i <= self.dev_cards@.len(),
                card_count(self.dev_cards@.subrange(0, i as int), card) == 0,
                *self == *old(self),
                forall|j: int| 0 <= j < i ==> #[trigger] self.dev_cards@[j] != card,
            decreases self.dev_cards@.len() - i,
        {
            assert(self.dev_cards@.subrange(0, i + 1).drop_last() =~= self.dev_cards@.subrange(0, i as int));
            if self.dev_cards[i] == card {
                let ghost i0 = i as int;
                proof {
                    assert forall|c: DevelopmentCard| #[trigger] card_count(self.dev_cards@.remove(i as int), c) + (if c == card { 1nat } else { 0nat }) == card_count(self.dev_cards@, c) by {
                        lemma_card_count_remove(self.dev_cards@, i as int, c);
                    }
                    assert(card_count(self.dev_cards@.subrange(0, i + 1), card) == 1);
                    assert(self.dev_cards@ =~= self.dev_cards@.subrange(0, i + 1) + self.dev_cards@.subrange(i + 1, self.dev_cards@.len() as int));
                    lemma_card_count_concat(self.dev_cards@.subrange(0, i + 1), self.dev_cards@.subrange(i + 1, self.dev_cards@.len() as int), card);
                }
                self.dev_cards.remove(i);
                assert(old(self).dev_cards@[i0] == card);
                return true;
            }
            i = i + 1;
        }
        assert(self.dev_cards@.subrange(0, i as int) =~= self.dev_cards@);
        false
    }

    pub fn settlement_limit_reached(&self) -> (b: bool)
        ensures
            b == (self.settlements@.len() >= MAX_SETTLEMENTS),
    {
        self.settlements.len() >= MAX_SETTLEMENTS
    }

    pub fn city_limit_reached(&self) -> (b: bool)
        ensures
            b == (self.cities@.len() >= MAX_CITIES),
    {
        self.cities.len() >= MAX_CITIES
    }

    pub fn road_limit_reached(&self) -> (b: bool)
        ensures
            b == (self.roads@.len() >= MAX_ROADS),
    {
        self.roads.len() >= MAX_ROADS
    }

    pub fn total_structures(&self) -> (n: usize)
        requires
            self.wf(),
        ensures
            n == self.settlements@.len() + self.cities@.len() + self.roads@.len(),
    {
        self.settlements.len() + self.cities.len() + self.roads.len()
    }

    pub fn total_points(&self) -> (p: u8)
        requires
            self.wf(),
        ensures
            p == self.spec_total_points(),
    {
        let visible = self.public_points();
        visible.saturating_add(self.victory_points)
    }

    pub fn public_points(&self) -> (p: u8)
        requires
            self.wf(),
        ensures
            p == self.spec_public_points(),
            p <= 17,
    {
        let settlement_points = self.settlements.len() as u8;
        let city_points = (self.cities.len() as u8) * 2;
        settlement_points + city_points + self.bonus_points()
    }

    pub fn bonus_points(&self) -> (p: u8)
        ensures
            p == self.spec_bonus_points(),
            p <= 4,
    {
        let mut bonus: u8 = 0;
        if self.has_longest_road {
            bonus = bonus + 2;
        }
        if self.has_largest_army {
            bonus = bonus + 2;
        }
        bonus
    }
}

} // verus!
