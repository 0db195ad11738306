use vstd::prelude::*;

use crate::types::{resource_at, resource_index, spec_resource_index, Resource, NUM_RESOURCES};

verus! {

/// A multiset of resource cards: one counter per resource kind.
#[derive(Debug, Clone, Copy, PartialEq, Eq, Hash)]
pub struct ResourceBundle {
    pub counts: [u8; 5],
}

#[derive(Debug, Clone, Copy, PartialEq, Eq)]
pub enum ResourceError {
    InsufficientResource { resource: Resource, available: u8, requested: u8 },
    InsufficientBundle,
}

/// Sum of the first `n` counters.
pub open spec fn prefix_total(c: Seq<u8>, n: int) -> int
    decreases n,
{
    if n <= 0 {
        0
    } else {
        prefix_total(c, n - 1) + c[n - 1] as int
    }
}

impl ResourceBundle {
    /// Number of cards of kind `r`.
    pub open spec fn count(self, r: Resource) -> int {
        self.counts@[spec_resource_index(r)] as int
    }

    /// Counter at position `i` of the canonical order.
    pub open spec fn at(self, i: int) -> int {
        self.counts@[i] as int
    }

    /// Number of cards in the bundle.
    pub open spec fn spec_total(self) -> int {
        self.at(0) + self.at(1) + self.at(2) + self.at(3) + self.at(4)
    }

    /// Every counter of `self` is at least the matching one of `other`.
    pub open spec fn covers(self, other: ResourceBundle) -> bool {
        self.covers_counts(other.counts@)
    }

    /// Every counter of `self` is at least the matching entry of `need`.
    pub open spec fn covers_counts(self, need: Seq<u8>) -> bool {
        forall|i: int| 0 <= i < 5 ==> #[trigger] self.at(i) >= need[i]
    }

    pub open spec fn is_zero(self) -> bool {
        forall|i: int| 0 <= i < 5 ==> #[trigger] self.at(i) == 0
    }

    /// Counter-wise sum, each counter capped at the largest `u8`.
    pub open spec fn saturating_sum(self, other: ResourceBundle) -> Seq<u8> {
        sat_sum_counts(self.counts@, other.counts@)
    }

    /// The counters of the bundle holding `n` cards of kind `r` and nothing else.
    pub open spec fn single(r: Resource, n: u8) -> Seq<u8> {
        Seq::new(5, |i: int| if i == spec_resource_index(r) { n } else { 0u8 })
    }

    pub fn from_counts(counts: [u8; 5]) -> (b: ResourceBundle)
        ensures
            b.counts@ == counts@,
    {
        ResourceBundle { counts }
    }

    pub fn zero() -> (b: ResourceBundle)
        ensures
            b.is_zero(),
            b.spec_total() == 0,
    {
        let b = ResourceBundle { counts: [0u8; 5] };
        assert(b.counts@ =~= seq![0u8, 0, 0, 0, 0]);
        b
    }

    pub fn total(&self) -> (t: u32)
        ensures
            t == self.spec_total(),
    {
        let mut t: u32 = 0;
        let mut i: usize = 0;
        while i < NUM_RESOURCES
            invariant
                0 <= i <= 5,
                t == prefix_total(self.counts@, i as int),
                t <= 255 * i,
            decreases 5 - i,
        {
            t = t + self.counts[i] as u32;
            i = i + 1;
        }
        assert(prefix_total(self.counts@, 5) == self.spec_total()) by {
            reveal_with_fuel(prefix_total, 6);
        }
        t
    }

    /// Adds `amount` cards of kind `resource`, saturating at the largest `u8`.
    pub fn add(&mut self, resource: Resource, amount: u8)
        ensures
            final(self).counts@ == old(self).counts@.update(
                spec_resource_index(resource),
                sat_add(old(self).count(resource) as u8, amount),
            ),
    {
        let idx = resource_index(resource);
        self.counts[idx] = self.counts[idx].saturating_add(amount);
    }

    /// Adds every counter of `other`, each saturating at the largest `u8`.
    pub fn add_bundle(&mut self, other: &ResourceBundle)
        ensures
            final(self).counts@ == old(self).saturating_sum(*other),
    {
        let mut i: usize = 0;
        while i < NUM_RESOURCES
            invariant
                0 <= i <= 5,
                self.counts@.len() == 5,
                forall|j: int| 0 <= j < i ==> #[trigger] self.counts@[j] == sat_add(old(self).counts@[j], other.counts@[j]),
                forall|j: int| i <= j < 5 ==> #[trigger] self.counts@[j] == old(self).counts@[j],
            decreases 5 - i,
        {
            self.counts[i] = self.counts[i].saturating_add(other.counts[i]);
            i = i + 1;
        }
        assert(self.counts@ =~= old(self).saturating_sum(*other));
    }

    /// Removes `amount` cards of kind `resource`; fails and changes nothing when short.
    pub fn subtract(&mut self, resource: Resource, amount: u8) -> (r: Result<(), ResourceError>)
        ensures
            r.is_ok() <==> old(self).count(resource) >= amount,
            r.is_ok() ==> final(self).counts@ == old(self).counts@.update(
                spec_resource_index(resource),
                (old(self).count(resource) - amount) as u8,
            ),
            r.is_err() ==> *final(self) == *old(self),
            r.is_err() ==> r == Err::<(), ResourceError>(ResourceError::InsufficientResource {
                resource,
                available: old(self).count(resource) as u8,
                requested: amount,
            }),
    {
        let idx = resource_index(resource);
        if self.counts[idx] < amount {
            return Err(
                ResourceError::InsufficientResource {
                    resource,
                    available: self.counts[idx],
                    requested: amount,
                },
            );
        }
        self.counts[idx] = self.counts[idx] - amount;
        Ok(())
    }

    /// Removes every counter of `other` at once, or nothing when any counter is short.
    pub fn subtract_bundle(&mut self, other: &ResourceBundle) -> (r: Result<(), ResourceError>)
        ensures
            r.is_ok() <==> old(self).covers(*other),
            r.is_ok() ==> forall|i: int| 0 <= i < 5 ==> #[trigger] final(self).at(i) == old(self).at(i) - other.at(i),
            r.is_ok() ==> final(self).spec_total() == old(self).spec_total() - other.spec_total(),
            r.is_err() ==> *final(self) == *old(self),
            r.is_err() ==> r == Err::<(), ResourceError>(ResourceError::InsufficientBundle),
    {
        if !self.can_afford(other) {
            return Err(ResourceError::InsufficientBundle);
        }
        let mut i: usize = 0;
        while i < NUM_RESOURCES
            invariant
                0 <= i <= 5,
                self.counts@.len() == 5,
                old(self).covers(*other),
                forall|j: int| 0 <= j < i ==> #[trigger] self.counts@[j] == old(self).counts@[j] - other.counts@[j],
                forall|j: int| i <= j < 5 ==> #[trigger] self.counts@[j] == old(self).counts@[j],
            decreases 5 - i,
        {
            assert(old(self).at(i as int) >= other.at(i as int));
            assert(self.at(i as int) == old(self).at(i as int));
            self.counts[i] = self.counts[i] - other.counts[i];
            i = i + 1;
        }
        assert(self.at(0) == old(self).at(0) - other.at(0));
        assert(self.at(1) == old(self).at(1) - other.at(1));
        assert(self.at(2) == old(self).at(2) - other.at(2));
        assert(self.at(3) == old(self).at(3) - other.at(3));
        assert(self.at(4) == old(self).at(4) - other.at(4));
        Ok(())
    }

    pub fn can_afford(&self, other: &ResourceBundle) -> (b: bool)
        ensures
            b == self.covers(*other),
    {
        let mut i: usize = 0;
        while i < NUM_RESOURCES
            invariant
                0 <= i <= 5,
                forall|j: int| 0 <= j < i ==> #[trigger] self.at(j) >= other.at(j),
            decreases 5 - i,
        {
            if self.counts[i] < other.counts[i] {
                assert(self.at(i as int) < other.at(i as int));
                return false;
            }
            i = i + 1;
        }
        true
    }

    pub fn is_empty(&self) -> (b: bool)
        ensures
            b == self.is_zero(),
            b == (self.spec_total() == 0),
    {
        let mut i: usize = 0;
        while i < NUM_RESOURCES
            invariant
                0 <= i <= 5,
                forall|j: int| 0 <= j < i ==> #[trigger] self.at(j) == 0,
            decreases 5 - i,
        {
            if self.counts[i] != 0 {
                assert(self.at(i as int) > 0);
                return false;
            }
            i = i + 1;
        }
        assert(self.at(0) == 0 && self.at(1) == 0 && self.at(2) == 0 && self.at(3) == 0 && self.at(4) == 0);
        true
    }

    /// The (resource, count) pairs in the canonical order of resource kinds.
    pub fn iter(&self) -> (v: Vec<(Resource, u8)>)
        ensures
            v@.len() == 5,
            forall|i: int| 0 <= i < 5 ==> spec_resource_index(#[trigger] v@[i].0) == i && v@[i].1 == self.counts@[i],
    {
        let mut v: Vec<(Resource, u8)> = Vec::new();
        let mut i: usize = 0;
        while i < NUM_RESOURCES
            invariant
                0 <= i <= 5,
                v@.len() == i,
                forall|j: int| 0 <= j < i ==> spec_resource_index(#[trigger] v@[j].0) == j && v@[j].1 == self.counts@[j],
            decreases 5 - i,
        {
            v.push((resource_at(i), self.counts[i]));
            i = i + 1;
        }
        v
    }

    pub fn counts(&self) -> (c: [u8; 5])
        ensures
            c@ == self.counts@,
    {
        self.counts
    }

    pub fn get(&self, resource: Resource) -> (n: u8)
        ensures
            n == self.count(resource),
    {
        self.counts[resource_index(resource)]
    }
}

/// Entry-wise capped sum of two five-entry counter sequences.
pub open spec fn sat_sum_counts(a: Seq<u8>, b: Seq<u8>) -> Seq<u8> {
    Seq::new(5, |i: int| sat_add(a[i], b[i]))
}

pub open spec fn sat_add(a: u8, b: u8) -> u8 {
    if a + b > 255 {
        255
    } else {
        (a + b) as u8
    }
}

impl Default for ResourceBundle {
    fn default() -> (b: ResourceBundle)
        ensures
            b.is_zero(),
    {
        ResourceBundle::zero()
    }
}

pub open spec fn road_price() -> Seq<u8> {
    seq![1u8, 1, 0, 0, 0]
}

pub open spec fn settlement_price() -> Seq<u8> {
    seq![1u8, 1, 1, 1, 0]
}

pub open spec fn city_price() -> Seq<u8> {
    seq![0u8, 0, 0, 2, 3]
}

/// Price of a road.
pub fn cost_road() -> (b: ResourceBundle)
    ensures
        b.counts@ == seq![1u8, 1, 0, 0, 0],
{
    let b = ResourceBundle { counts: [1, 1, 0, 0, 0] };
    assert(b.counts@ =~= seq![1u8, 1, 0, 0, 0]);
    b
}

/// Price of a settlement.
pub fn cost_settlement() -> (b: ResourceBundle)
    ensures
        b.counts@ == seq![1u8, 1, 1, 1, 0],
{
    let b = ResourceBundle { counts: [1, 1, 1, 1, 0] };
    assert(b.counts@ =~= seq![1u8, 1, 1, 1, 0]);
    b
}

/// Price of a city.
pub fn cost_city() -> (b: ResourceBundle)
    ensures
        b.counts@ == seq![0u8, 0, 0, 2, 3],
{
    let b = ResourceBundle { counts: [0, 0, 0, 2, 3] };
    assert(b.counts@ =~= seq![0u8, 0, 0, 2, 3]);
    b
}

/// Price of a development card.
pub fn cost_development() -> (b: ResourceBundle)
    ensures
        b.counts@ == seq![0u8, 0, 1, 1, 1],
{
    let b = ResourceBundle { counts: [0, 0, 1, 1, 1] };
    assert(b.counts@ =~= seq![0u8, 0, 1, 1, 1]);
    b
}

} // verus!
