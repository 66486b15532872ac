//! What the game takes from chance and from the clock.
use vstd::prelude::*;
use rand::seq::SliceRandom;

verus! {

broadcast use vstd::seq_lib::group_to_multiset_ensures;

/// `rand::seq::SliceRandom::shuffle` on the thread-local generator of `rand::thread_rng`.
/// Claimed of it: the vector afterwards holds the same items, each as many times as
/// before (the crate's implementation only swaps items). Which order comes out is
/// left open: it rests on chance. `thread_rng` panics when the operating system's
/// random source cannot be read the first time; that rests on the machine and is
/// not stated.
#[verifier::external_body]
fn shuffle_indices(v: &mut Vec<usize>)
    ensures
        final(v)@.to_multiset() == old(v)@.to_multiset(),
{
    let mut rng = rand::thread_rng();
    v.shuffle(&mut rng);
}

#[verifier::external_type_specification]
#[verifier::external_body]
pub struct ExSystemTime(std::time::SystemTime);

#[verifier::external_type_specification]
#[verifier::external_body]
pub struct ExSystemTimeError(std::time::SystemTimeError);

/// `std::time::SystemTime::now`: the machine's clock. Nothing is claimed of
/// what it reads.
#[verifier::external_body]
fn clock_now() -> (t: std::time::SystemTime) {
    std::time::SystemTime::now()
}

/// `std::time::SystemTime::duration_since`, measured from the Unix epoch: the
/// time elapsed since then, or an error for a time before it. Nothing is
/// claimed of which comes: it rests on the clock.
#[verifier::external_body]
fn since_unix_epoch(t: &std::time::SystemTime) -> (r: Result<std::time::Duration, std::time::SystemTimeError>) {
    t.duration_since(std::time::UNIX_EPOCH)
}

/// `std::time::Duration::as_secs`: the whole seconds of a duration. Nothing is
/// claimed of the value, since a `Duration` is opaque here.
#[verifier::external_body]
fn whole_seconds(d: &std::time::Duration) -> (s: u64) {
    d.as_secs()
}

/// The clock's reading in whole seconds since the Unix epoch, 0 for a clock
/// set before the epoch.
pub(crate) fn current_time_secs() -> (t: u64) {
    let now = clock_now();
    match since_unix_epoch(&now) {
        Ok(d) => whole_seconds(&d),
        Err(_) => 0,
    }
}

/// `p` lists each of `0..n` exactly once.
pub open spec fn is_permutation(p: Seq<usize>, n: nat) -> bool {
    &&& p.len() == n
    &&& forall|i: int| 0 <= i < p.len() ==> #[trigger] p[i] < n
    &&& p.no_duplicates()
}

/// A random ordering of `0..n`.
pub fn random_permutation(n: usize) -> (r: Vec<usize>)
    ensures
        is_permutation(r@, n as nat),
{
    let mut v: Vec<usize> = Vec::new();
    for i in 0..n
        invariant
            v@.len() == i,
            forall|k: int| 0 <= k < i ==> #[trigger] v@[k] == k,
    {
        v.push(i);
    }
    let ghost before = v@;
    assert(before.no_duplicates());
    proof {
        before.lemma_multiset_has_no_duplicates();
    }
    shuffle_indices(&mut v);
    proof {
        let after = v@;
        assert(after.to_multiset() == before.to_multiset());
        assert(after.len() == n) by {
            assert(after.len() == after.to_multiset().len());
            assert(before.len() == before.to_multiset().len());
        }
        assert forall|x: usize| after.to_multiset().contains(x) implies after.to_multiset().count(
            x,
        ) == 1 by {}
        after.lemma_multiset_has_no_duplicates_conv();
        assert forall|i: int| 0 <= i < after.len() implies #[trigger] after[i] < n by {
            assert(after.contains(after[i]));
            assert(after.to_multiset().count(after[i]) > 0);
            assert(before.contains(after[i]));
            let j = choose|j: int| 0 <= j < before.len() && before[j] == after[i];
            assert(before[j] == j);
        }
    }
    v
}

} // verus!
