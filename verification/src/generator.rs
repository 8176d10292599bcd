//! The prime generator: a list of the primes found so far and a cursor, moved
//! from phase to phase by operations that exist only in the phase in which
//! they are legal.

use vstd::prelude::*;
use std::marker::PhantomData;
use crate::arith::{
    is_factor, is_prime, least_factor, lemma_composite_has_small_prime_factor,
    lemma_prime_by_trial_division, lemma_square_monotonic,
};
use crate::model::GeneratorView;
use crate::prime_list::{
    is_next_prime, is_prime_prefix, lemma_first_prime_list, lemma_prime_list_grows,
    lemma_prime_list_reaches, lemma_prime_list_tightens, lists_primes_upto, no_prime_between,
};

verus! {

/// Phase of a generator that has not produced its first prime yet.
pub struct Uninitialized;

/// Phase of a generator that has produced a prime and can be resumed.
pub struct Suspended;

/// Phase of a generator whose range holds no further prime.
pub struct Completed;

/// A lifecycle phase, with what a generator holds while it is in it.
pub trait Phase {
    /// What holds of a generator in this phase.
    spec fn admits(g: GeneratorView) -> bool;

    /// In every phase the list is the first primes, in ascending order.
    proof fn lemma_discovered_is_prime_prefix(g: GeneratorView)
        requires
            Self::admits(g),
        ensures
            is_prime_prefix(g.discovered),
    ;
}

impl Phase for Uninitialized {
    open spec fn admits(g: GeneratorView) -> bool {
        g.valid_uninitialized()
    }

    proof fn lemma_discovered_is_prime_prefix(g: GeneratorView) {
    }
}

impl Phase for Suspended {
    open spec fn admits(g: GeneratorView) -> bool {
        g.valid_suspended()
    }

    proof fn lemma_discovered_is_prime_prefix(g: GeneratorView) {
    }
}

impl Phase for Completed {
    open spec fn admits(g: GeneratorView) -> bool {
        g.valid_completed()
    }

    proof fn lemma_discovered_is_prime_prefix(g: GeneratorView) {
        lemma_prime_list_tightens(g.discovered, g.limit as int);
    }
}

/// A generator of primes by trial division, in the phase `State`.
pub struct PrimesCoroutine<State: Phase = Uninitialized> {
    primes: Vec<u64>,
    current: u64,
    limit: u64,
    state: PhantomData<State>,
}

impl<State: Phase> View for PrimesCoroutine<State> {
    type V = GeneratorView;

    closed spec fn view(&self) -> GeneratorView {
        GeneratorView { discovered: self.primes@, cursor: self.current, limit: self.limit }
    }
}

impl<State: Phase> PrimesCoroutine<State> {
    /// Every generator holds what its phase admits.
    #[verifier::type_invariant]
    pub open spec fn well_formed(&self) -> bool {
        State::admits(self@)
    }

    /// The primes found so far, in ascending order.
    pub fn get_primes(&self) -> (primes: &Vec<u64>)
        ensures
            primes@ == self@.discovered,
            is_prime_prefix(primes@),
    {
        proof {
            use_type_invariant(self);
            State::lemma_discovered_is_prime_prefix(self@);
        }
        &self.primes
    }
}

impl PrimesCoroutine {
    /// A generator over the whole range of `u64` that has produced nothing yet.
    pub fn new() -> (g: PrimesCoroutine<Uninitialized>)
        ensures
            g@ == GeneratorView::fresh(u64::MAX),
    {
        PrimesCoroutine { primes: Vec::new(), current: 2, limit: u64::MAX, state: PhantomData }
    }

    /// A generator that has produced nothing yet and will produce no value
    /// above `limit`, as one over a narrower integer type would.
    pub fn with_limit(limit: u64) -> (g: PrimesCoroutine<Uninitialized>)
        requires
            limit >= 2,
        ensures
            g@ == GeneratorView::fresh(limit),
    {
        PrimesCoroutine { primes: Vec::new(), current: 2, limit, state: PhantomData }
    }
}

impl PrimesCoroutine<Uninitialized> {
    /// Produces the first prime, 2, and moves to the suspended phase. This
    /// never fails.
    pub fn init(self) -> (r: Result<(u64, PrimesCoroutine<Suspended>), PrimesCoroutine<Completed>>)
        ensures
            r matches Ok((first, g)) && first == 2 && g@ == self@.started(),
    {
        proof {
            use_type_invariant(&self);
            lemma_first_prime_list();
        }
        let mut primes = self.primes;
        primes.push(2);
        assert(primes@ =~= seq![2u64]);
        Ok((2, PrimesCoroutine { primes, current: 2, limit: self.limit, state: PhantomData }))
    }
}

impl PrimesCoroutine<Suspended> {
    /// Produces the smallest prime above the one produced last and stays
    /// suspended; or, where none is left within the limit, moves to the
    /// completed phase and produces nothing.
    pub fn resume(self) -> (r: Result<(u64, PrimesCoroutine<Suspended>), PrimesCoroutine<Completed>>)
        ensures
            match r {
                Ok((p, g)) => {
                    &&& is_next_prime(self@.cursor as int, p as int, self@.limit as int)
                    &&& g@ == self@.extended(p)
                },
                Err(g) => {
                    &&& no_prime_between(self@.cursor as int, self@.limit as int)
                    &&& g@ == self@.exhausted()
                },
            },
            r is Err <==> no_prime_between(self@.cursor as int, self@.limit as int),
    {
        proof {
            use_type_invariant(&self);
        }
        let ghost before = self@;
        let ghost start = self.current;
        let limit = self.limit;
        let mut primes = self.primes;
        let mut current = self.current;
        while current < limit
            invariant
                before == self@,
                before == (GeneratorView { discovered: primes@, cursor: start, limit }),
                start <= current <= limit,
                primes@.len() > 0,
                lists_primes_upto(primes@, start as int),
                forall|q: int| start < q <= current ==> !is_prime(q),
            decreases limit - current,
        {
            current += 1;
            let mut found: bool = true;
            let mut idx: usize = 0;
            while idx < primes.len()
                invariant_except_break
                    found,
                invariant
                    idx <= primes.len(),
                    primes@.len() > 0,
                    start < current,
                    lists_primes_upto(primes@, start as int),
                    forall|q: int| start < q < current ==> !is_prime(q),
                    forall|j: int|
                        0 <= j < idx ==> !is_factor(#[trigger] primes@[j] as int, current as int),
                    idx == primes.len() ==> is_prime(current as int),
                ensures
                    found == is_prime(current as int),
                decreases primes.len() - idx,
            {
                let prime = primes[idx];
                let bound_exceeded = match prime.checked_mul(prime) {
                    Some(square) => square > current,
                    None => true,
                };
                if bound_exceeded {
                    // no listed prime up to the square root divides the candidate
                    proof {
                        lemma_scan_stopped_at_bound(primes@, start as int, idx as int, current as int);
                    }
                    break ;
                }
                if current % prime == 0 {
                    // a listed prime divides the candidate
                    found = false;
                    assert(is_factor(prime as int, current as int));
                    break ;
                }
                idx += 1;
                proof {
                    if idx == primes.len() {
                        lemma_scan_ran_out(primes@, start as int, current as int);
                    }
                }
            }
            if found {
                // the candidate is the next prime
                proof {
                    lemma_prime_list_grows(primes@, start as int, current, limit as int);
                }
                primes.push(current);
                return Ok((current, PrimesCoroutine { primes, current, limit, state: PhantomData }));
            }
        }
        proof {
            lemma_prime_list_reaches(primes@, start as int, limit as int);
        }
        Err(PrimesCoroutine { primes, current: 0, limit, state: PhantomData })
    }
}

/// The scan of a candidate may stop at the first listed prime whose square
/// exceeds it: where none of the listed primes before that one is a factor,
/// the candidate is prime.
proof fn lemma_scan_stopped_at_bound(primes: Seq<u64>, start: int, idx: int, candidate: int)
    requires
        lists_primes_upto(primes, start),
        2 <= candidate,
        0 <= idx < primes.len(),
        primes[idx] * primes[idx] > candidate,
        forall|j: int| 0 <= j < idx ==> !is_factor(#[trigger] primes[j] as int, candidate),
    ensures
        is_prime(candidate),
{
    let stop = primes[idx] as int;
    assert forall|p: int| is_prime(p) && p * p <= candidate implies !#[trigger] is_factor(
        p,
        candidate,
    ) by {
        if p >= stop {
            lemma_square_monotonic(stop, p);
        }
        assert(p < stop <= start);
        assert(primes.contains(p as u64));
        let j = choose|j: int| 0 <= j < primes.len() && primes[j] == p as u64;
        if j > idx {
            assert(primes[idx] < primes[j]);
        }
        assert(!is_factor(primes[j] as int, candidate));
    }
    lemma_prime_by_trial_division(candidate);
}

/// Where the scan of a candidate runs through the whole list of the primes
/// below it and finds no factor, the candidate is prime.
proof fn lemma_scan_ran_out(primes: Seq<u64>, start: int, candidate: int)
    requires
        lists_primes_upto(primes, start),
        2 <= candidate,
        start < candidate <= u64::MAX,
        forall|q: int| start < q < candidate ==> !is_prime(q),
        forall|j: int| 0 <= j < primes.len() ==> !is_factor(#[trigger] primes[j] as int, candidate),
    ensures
        is_prime(candidate),
{
    if !is_prime(candidate) {
        lemma_composite_has_small_prime_factor(candidate);
        let p = least_factor(candidate);
        assert(p < candidate) by (nonlinear_arith)
            requires
                p >= 2,
                p * p <= candidate,
        ;
        assert(p <= start);
        assert(primes.contains(p as u64));
        let j = choose|j: int| 0 <= j < primes.len() && primes[j] == p as u64;
        assert(!is_factor(primes[j] as int, candidate));
    }
}

} // verus!
