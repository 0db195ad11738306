use vstd::prelude::*;

verus! {

/// `i` holds a value of at least `min` that is strictly larger than every other value.
pub open spec fn is_unique_leader(vals: Seq<int>, i: int, min: int) -> bool {
    &&& 0 <= i < vals.len()
    &&& vals[i] >= min
    &&& forall|j: int| 0 <= j < vals.len() && j != i ==> vals[j] < vals[i]
}

pub open spec fn as_ints(v: Seq<u32>) -> Seq<int> {
    v.map_values(|x: u32| x as int)
}

/// The holder of a bonus that goes to a strict, unique maximum of at least `min`;
/// a tie at the maximum gives it to nobody.
pub fn unique_leader(vals: &Vec<u32>, min: u32) -> (r: Option<usize>)
    ensures
        match r {
            Some(i) => is_unique_leader(as_ints(vals@), i as int, min as int),
            None => forall|i: int| !#[trigger] is_unique_leader(as_ints(vals@), i, min as int),
        },
{
    let ghost s = as_ints(vals@);
    let mut best: usize = 0;
    let mut i: usize = 1;
    if vals.len() == 0 {
        return None;
    }
    while i < vals.len()
        invariant
            1 <= i <= vals@.len(),
            best < i,
            forall|j: int| 0 <= j < i ==> vals@[j] <= vals@[best as int],
        decreases vals@.len() - i,
    {
        if vals[i] > vals[best] {
            best = i;
        }
        i = i + 1;
    }
    if vals[best] < min {
        assert forall|k: int| !#[trigger] is_unique_leader(s, k, min as int) by {
            if 0 <= k < s.len() {
                assert(s[k] == vals@[k] as int);
            }
        }
        return None;
    }
    let mut j: usize = 0;
    while j < vals.len()
        invariant
            0 <= j <= vals@.len(),
            s == as_ints(vals@),
            vals[best as int] >= min,
            best < vals@.len(),
            forall|k: int| 0 <= k < vals@.len() ==> vals@[k] <= vals@[best as int],
            forall|k: int| 0 <= k < j && k != best ==> vals@[k] < vals@[best as int],
        decreases vals@.len() - j,
    {
        if j != best && vals[j] == vals[best] {
            assert forall|k: int| !#[trigger] is_unique_leader(s, k, min as int) by {
                if 0 <= k < s.len() {
                    assert(s[k] == vals@[k] as int);
                    assert(s[j as int] == vals@[j as int] as int);
                    assert(s[best as int] == vals@[best as int] as int);
                }
            }
            return None;
        }
        j = j + 1;
    }
    assert(is_unique_leader(s, best as int, min as int)) by {
        assert forall|k: int| 0 <= k < s.len() && k != best implies s[k] < s[best as int] by {
            assert(s[k] == vals@[k] as int);
        }
    }
    Some(best)
}

} // verus!
