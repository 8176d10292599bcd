//! Lists of primes: what it is for a list to hold exactly the primes up to a
//! bound, or the first primes of some number, and how such lists grow.

use vstd::prelude::*;
use crate::arith::{is_prime, lemma_two_is_prime};

verus! {

/// Each entry of `s` is larger than the one before it.
pub open spec fn strictly_increasing(s: Seq<u64>) -> bool {
    forall|i: int, j: int| 0 <= i < j < s.len() ==> s[i] < s[j]
}

/// `s` holds, in ascending order and without repetition, exactly the primes
/// up to and including `bound`.
pub open spec fn lists_primes_upto(s: Seq<u64>, bound: int) -> bool {
    &&& strictly_increasing(s)
    &&& forall|i: int| 0 <= i < s.len() ==> is_prime(#[trigger] s[i] as int) && s[i] <= bound
    &&& forall|p: u64| is_prime(p as int) && p <= bound ==> #[trigger] s.contains(p)
}

/// `s` is the ascending list of the first `s.len()` primes: it holds primes
/// only, and none is missing below its last entry.
pub open spec fn is_prime_prefix(s: Seq<u64>) -> bool {
    s.len() > 0 ==> lists_primes_upto(s, s.last() as int)
}

/// `p` is the smallest prime above `after`, and does not exceed `limit`.
pub open spec fn is_next_prime(after: int, p: int, limit: int) -> bool {
    &&& after < p <= limit
    &&& is_prime(p)
    &&& forall|q: int| after < q < p ==> !is_prime(q)
}

/// No prime lies above `after` and at or below `limit`.
pub open spec fn no_prime_between(after: int, limit: int) -> bool {
    forall|q: int| after < q <= limit ==> !is_prime(q)
}

/// The list that holds 2 alone is the list of the primes up to 2.
pub proof fn lemma_first_prime_list()
    ensures
        lists_primes_upto(seq![2u64], 2),
{
    lemma_two_is_prime();
    let s = seq![2u64];
    assert(s[0] == 2);
    assert forall|p: u64| is_prime(p as int) && p <= 2 implies #[trigger] s.contains(p) by {
        assert(s[0] == p);
    }
}

/// Appending the next prime to the list of the primes up to `bound` gives the
/// list of the primes up to that prime.
pub proof fn lemma_prime_list_grows(s: Seq<u64>, bound: int, p: u64, limit: int)
    requires
        lists_primes_upto(s, bound),
        is_next_prime(bound, p as int, limit),
    ensures
        lists_primes_upto(s.push(p), p as int),
{
    let t = s.push(p);
    assert forall|i: int, j: int| 0 <= i < j < t.len() implies t[i] < t[j] by {
        if j == s.len() {
            assert(t[i] == s[i]);
        } else {
            assert(t[i] == s[i] && t[j] == s[j]);
        }
    }
    assert forall|i: int| 0 <= i < t.len() implies is_prime(#[trigger] t[i] as int) && t[i] <= p by {
        if i < s.len() {
            assert(t[i] == s[i]);
        }
    }
    assert forall|q: u64| is_prime(q as int) && q <= p implies #[trigger] t.contains(q) by {
        if q == p {
            assert(t[s.len() as int] == q);
        } else {
            assert(q <= bound);
            assert(s.contains(q));
            let i = choose|i: int| 0 <= i < s.len() && s[i] == q;
            assert(t[i] == q);
        }
    }
}

/// Where no prime lies between `bound` and `limit`, the list of the primes up
/// to `bound` is the list of the primes up to `limit` too.
pub proof fn lemma_prime_list_reaches(s: Seq<u64>, bound: int, limit: int)
    requires
        lists_primes_upto(s, bound),
        bound <= limit,
        no_prime_between(bound, limit),
    ensures
        lists_primes_upto(s, limit),
{
    assert forall|q: u64| is_prime(q as int) && q <= limit implies #[trigger] s.contains(q) by {
        assert(q <= bound);
    }
}

/// A list of the primes up to `bound` is the list of the primes up to its own
/// last entry.
pub proof fn lemma_prime_list_tightens(s: Seq<u64>, bound: int)
    requires
        s.len() > 0,
        lists_primes_upto(s, bound),
    ensures
        lists_primes_upto(s, s.last() as int),
{
    let top = s.last();
    assert forall|i: int| 0 <= i < s.len() implies is_prime(#[trigger] s[i] as int) && s[i]
        <= top by {
        if i < s.len() - 1 {
            assert(s[i] < s[s.len() - 1]);
        }
    }
}

/// Without its last entry, a list of primes up to that entry is the list of
/// the primes below it.
pub proof fn lemma_prime_list_shrinks(s: Seq<u64>)
    requires
        s.len() > 0,
        lists_primes_upto(s, s.last() as int),
    ensures
        lists_primes_upto(s.drop_last(), s.last() - 1),
{
    let t = s.drop_last();
    let top = s.last();
    assert forall|i: int, j: int| 0 <= i < j < t.len() implies t[i] < t[j] by {
        assert(t[i] == s[i] && t[j] == s[j]);
    }
    assert forall|i: int| 0 <= i < t.len() implies is_prime(#[trigger] t[i] as int) && t[i] <= top
        - 1 by {
        assert(t[i] == s[i]);
        assert(s[i] < s[s.len() - 1]);
    }
    assert forall|q: u64| is_prime(q as int) && q <= top - 1 implies #[trigger] t.contains(q) by {
        assert(s.contains(q));
        let i = choose|i: int| 0 <= i < s.len() && s[i] == q;
        assert(t[i] == q);
    }
}

/// Only one list holds the primes up to a given bound.
pub proof fn lemma_prime_list_unique(a: Seq<u64>, b: Seq<u64>, bound: int)
    requires
        lists_primes_upto(a, bound),
        lists_primes_upto(b, bound),
    ensures
        a == b,
    decreases a.len(),
{
    if a.len() == 0 {
        if b.len() > 0 {
            assert(a.contains(b[0]));
        }
        assert(a =~= b);
    } else {
        lemma_prime_list_tightens(a, bound);
        assert(b.contains(a.last()));
        lemma_prime_list_tightens(b, bound);
        assert(a.contains(b.last()));
        assert(a.last() == b.last());
        lemma_prime_list_shrinks(a);
        lemma_prime_list_shrinks(b);
        lemma_prime_list_unique(a.drop_last(), b.drop_last(), a.last() - 1);
        assert(a =~= a.drop_last().push(a.last()));
        assert(b =~= b.drop_last().push(b.last()));
    }
}

/// Of two lists of first primes, the one that ends lower is the beginning of
/// the other; where they are equally long, they are equal.
proof fn lemma_prime_prefix_within(a: Seq<u64>, b: Seq<u64>)
    requires
        a.len() > 0,
        b.len() > 0,
        lists_primes_upto(a, a.last() as int),
        lists_primes_upto(b, b.last() as int),
        a.last() <= b.last(),
    ensures
        a.len() <= b.len(),
        a == b.take(a.len() as int),
        a.len() == b.len() ==> a == b,
{
    let top = a.last();
    assert(b.contains(top));
    let k = choose|k: int| 0 <= k < b.len() && b[k] == top;
    let head = b.take(k + 1);
    assert forall|i: int| 0 <= i < head.len() implies is_prime(#[trigger] head[i] as int)
        && head[i] <= top by {
        assert(head[i] == b[i]);
        if i < k {
            assert(b[i] < b[k]);
        }
    }
    assert forall|q: u64| is_prime(q as int) && q <= top implies #[trigger] head.contains(q) by {
        assert(b.contains(q));
        let m = choose|m: int| 0 <= m < b.len() && b[m] == q;
        if m > k {
            assert(b[k] < b[m]);
        }
        assert(head[m] == q);
    }
    lemma_prime_list_unique(a, head, top as int);
    if a.len() == b.len() {
        assert(head =~= b);
    }
}

/// Only one list is the first primes of a given number: two such lists of
/// one length are equal.
pub proof fn lemma_prime_prefix_unique(a: Seq<u64>, b: Seq<u64>)
    requires
        is_prime_prefix(a),
        is_prime_prefix(b),
        a.len() == b.len(),
    ensures
        a == b,
{
    if a.len() == 0 {
        assert(a =~= b);
    } else if a.last() <= b.last() {
        lemma_prime_prefix_within(a, b);
    } else {
        lemma_prime_prefix_within(b, a);
    }
}

} // verus!
