//! Identifier allocation: short numeric ids drawn from a bounded 4-digit
//! range, re-drawn on collision with the ids already present in the target
//! collection, with a deterministic sweep as a last resort so that
//! allocation always terminates.
use vstd::prelude::*;
use vstd::set_lib::lemma_int_range;
use vstd::set_lib::lemma_len_subset;
use vstd::set_lib::set_int_range;

verus! {

/// Relies on rand's `Rng::random_range` over `1000..9999`: it samples the
/// given non-empty range, so the result lies within it. Nothing more is
/// assumed of a random value.
#[verifier::external_body]
fn gen_4digit_id() -> (r: u64)
    ensures
        1000 <= r < 9999,
{
    let mut rng = rand::rng();
    rand::Rng::random_range(&mut rng, 1000..9999)
}

/// Whether `x` occurs in `ids`.
pub(crate) fn contains_id(ids: &Vec<u64>, x: u64) -> (r: bool)
    ensures
        r == ids@.contains(x),
{
    let mut i: usize = 0;
    while i < ids.len()
        invariant
            i <= ids.len(),
            forall|j: int| 0 <= j < i ==> ids@[j] != x,
        decreases ids.len() - i,
    {
        if ids[i] == x {
            return true;
        }
        i = i + 1;
    }
    false
}

/// Fewer ids than the 4-digit range has members cannot cover it: some id
/// of the range is missing from `ids`.
proof fn lemma_unused_id_exists(ids: Seq<u64>)
    requires
        ids.len() < 8999,
    ensures
        exists|x: u64| 1000 <= x < 9999 && !ids.contains(x),
{
    if !(exists|x: u64| 1000 <= x < 9999 && !ids.contains(x)) {
        let ints = ids.map_values(|x: u64| x as int);
        let range = set_int_range(1000, 9999);
        lemma_int_range(1000, 9999);
        ints.lemma_cardinality_of_set();
        assert forall|y: int| range.contains(y) implies ints.to_set().contains(y) by {
            let x = y as u64;
            assert(ids.contains(x));
            let i = choose|i: int| 0 <= i < ids.len() && ids[i] == x;
            assert(ints[i] == y);
            assert(ints.contains(y));
        }
        lemma_len_subset(range, ints.to_set());
        assert(false);
    }
}

/// A fresh short numeric id: never equal to any id in `current_ids`.
/// Candidates are drawn at random from the 4-digit range and re-drawn on
/// collision; after a bounded number of draws the range is swept in order,
/// so the call terminates even on a dense collection.
pub fn get_unused_id(current_ids: Vec<u64>) -> (r: u64)
    requires
        current_ids@.len() < 8999,
    ensures
        1000 <= r < 9999,
        !current_ids@.contains(r),
{
    let mut rand_id = gen_4digit_id();
    let mut tries: usize = 0;
    while tries < 32
        invariant
            1000 <= rand_id < 9999,
        decreases 32 - tries,
    {
        if !contains_id(&current_ids, rand_id) {
            return rand_id;
        }
        rand_id = gen_4digit_id();
        tries = tries + 1;
    }
    let mut candidate: u64 = 1000;
    while candidate < 9999
        invariant
            1000 <= candidate <= 9999,
            forall|x: u64| 1000 <= x < candidate ==> current_ids@.contains(x),
        decreases 9999 - candidate,
    {
        if !contains_id(&current_ids, candidate) {
            return candidate;
        }
        candidate = candidate + 1;
    }
    proof {
        lemma_unused_id_exists(current_ids@);
        let x = choose|x: u64| 1000 <= x < 9999 && !current_ids@.contains(x);
        assert(current_ids@.contains(x));
    }
    candidate
}

} // verus!
