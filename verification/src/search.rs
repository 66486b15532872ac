//! The first and the last item of a sequence that meets a condition.
use vstd::prelude::*;

verus! {

pub open spec fn first_match<A>(s: Seq<A>, f: spec_fn(A) -> bool) -> Option<int>
    decreases s.len(),
{
    if s.len() == 0 {
        None
    } else if f(s[0]) {
        Some(0)
    } else {
        match first_match(s.drop_first(), f) {
            Some(i) => Some(i + 1),
            None => None,
        }
    }
}

pub open spec fn last_match<A>(s: Seq<A>, f: spec_fn(A) -> bool) -> Option<int>
    decreases s.len(),
{
    if s.len() == 0 {
        None
    } else if f(s.last()) {
        Some(s.len() - 1)
    } else {
        last_match(s.drop_last(), f)
    }
}

pub proof fn lemma_first_match<A>(s: Seq<A>, f: spec_fn(A) -> bool)
    ensures
        match first_match(s, f) {
            Some(i) => 0 <= i < s.len() && f(s[i]) && forall|j: int| 0 <= j < i ==> !f(#[trigger] s[j]),
            None => forall|j: int| 0 <= j < s.len() ==> !f(#[trigger] s[j]),
        },
    decreases s.len(),
{
    if s.len() > 0 && !f(s[0]) {
        lemma_first_match(s.drop_first(), f);
        assert forall|j: int| 1 <= j < s.len() implies s[j] == s.drop_first()[j - 1] by {}
    }
}

pub proof fn lemma_last_match<A>(s: Seq<A>, f: spec_fn(A) -> bool)
    ensures
        match last_match(s, f) {
            Some(i) => 0 <= i < s.len() && f(s[i]) && forall|j: int| i < j < s.len() ==> !f(#[trigger] s[j]),
            None => forall|j: int| 0 <= j < s.len() ==> !f(#[trigger] s[j]),
        },
    decreases s.len(),
{
    if s.len() > 0 && !f(s.last()) {
        lemma_last_match(s.drop_last(), f);
        assert forall|j: int| 0 <= j < s.len() - 1 implies s[j] == s.drop_last()[j] by {}
    }
}

/// `i` is the first index whose item meets `f`.
pub proof fn lemma_first_match_at<A>(s: Seq<A>, f: spec_fn(A) -> bool, i: int)
    requires
        0 <= i < s.len(),
        f(s[i]),
        forall|j: int| 0 <= j < i ==> !f(#[trigger] s[j]),
    ensures
        first_match(s, f) == Some(i),
{
    lemma_first_match(s, f);
    match first_match(s, f) {
        Some(k) => {
            if k < i {
                assert(!f(s[k]));
            } else if k > i {
                assert(!f(s[i]));
            }
        },
        None => {
            assert(!f(s[i]));
        },
    }
}

/// No item meets `f`.
pub proof fn lemma_first_match_none<A>(s: Seq<A>, f: spec_fn(A) -> bool)
    requires
        forall|j: int| 0 <= j < s.len() ==> !f(#[trigger] s[j]),
    ensures
        first_match(s, f) == None::<int>,
{
    lemma_first_match(s, f);
    if let Some(k) = first_match(s, f) {
        assert(!f(s[k]));
    }
}

/// `i` is the last index whose item meets `f`.
pub proof fn lemma_last_match_at<A>(s: Seq<A>, f: spec_fn(A) -> bool, i: int)
    requires
        0 <= i < s.len(),
        f(s[i]),
        forall|j: int| i < j < s.len() ==> !f(#[trigger] s[j]),
    ensures
        last_match(s, f) == Some(i),
{
    lemma_last_match(s, f);
    match last_match(s, f) {
        Some(k) => {
            if k < i {
                assert(!f(s[i]));
            } else if k > i {
                assert(!f(s[k]));
            }
        },
        None => {
            assert(!f(s[i]));
        },
    }
}

pub proof fn lemma_last_match_none<A>(s: Seq<A>, f: spec_fn(A) -> bool)
    requires
        forall|j: int| 0 <= j < s.len() ==> !f(#[trigger] s[j]),
    ensures
        last_match(s, f) == None::<int>,
{
    lemma_last_match(s, f);
    if let Some(k) = last_match(s, f) {
        assert(!f(s[k]));
    }
}

} // verus!
