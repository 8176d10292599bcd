//! The mathematical model of the generator and of the sequence that steps
//! it: what they hold in each phase, and what one step does.

use vstd::prelude::*;
use crate::prime_list::{
    is_next_prime, lemma_first_prime_list, lemma_prime_list_grows, lemma_prime_list_reaches,
    lists_primes_upto, no_prime_between,
};

verus! {

/// What a generator holds, whatever its phase.
pub struct GeneratorView {
    /// The primes found so far, in the order in which they were found.
    pub discovered: Seq<u64>,
    /// The last candidate that was tested; 0 once the generator has completed.
    pub cursor: u64,
    /// The largest value that the generator may produce.
    pub limit: u64,
}

impl GeneratorView {
    /// A generator that has produced nothing yet.
    pub open spec fn fresh(limit: u64) -> GeneratorView {
        GeneratorView { discovered: Seq::empty(), cursor: 2, limit }
    }

    /// The generator that `self` becomes by producing its first prime.
    pub open spec fn started(self) -> GeneratorView {
        GeneratorView { discovered: seq![2u64], cursor: 2, limit: self.limit }
    }

    /// The generator that `self` becomes by producing `p`.
    pub open spec fn extended(self, p: u64) -> GeneratorView {
        GeneratorView { discovered: self.discovered.push(p), cursor: p, limit: self.limit }
    }

    /// The generator that `self` becomes when its range holds no further prime.
    pub open spec fn exhausted(self) -> GeneratorView {
        GeneratorView { discovered: self.discovered, cursor: 0, limit: self.limit }
    }

    /// Before the first step: nothing found, and the first prime is within the limit.
    pub open spec fn valid_uninitialized(self) -> bool {
        &&& self.discovered.len() == 0
        &&& self.cursor == 2
        &&& self.limit >= 2
    }

    /// Between two steps: the list is exactly the primes up to the cursor,
    /// which is the prime that was produced last.
    pub open spec fn valid_suspended(self) -> bool {
        &&& self.discovered.len() > 0
        &&& self.discovered.last() == self.cursor
        &&& self.cursor <= self.limit
        &&& lists_primes_upto(self.discovered, self.cursor as int)
    }

    /// After the last step: the list is exactly the primes up to the limit.
    pub open spec fn valid_completed(self) -> bool {
        &&& self.discovered.len() > 0
        &&& self.cursor == 0
        &&& lists_primes_upto(self.discovered, self.limit as int)
    }
}

/// What a sequence of primes holds: the phase of its generator, and the
/// generator itself. `Undefined` stands for the empty slot that exists only
/// while a step exchanges one generator for the next.
pub enum SequenceView {
    Undefined,
    Created(GeneratorView),
    Ready(GeneratorView),
    Closed(GeneratorView),
}

impl SequenceView {
    /// A sequence over the whole range of `u64` that has produced nothing yet.
    pub open spec fn fresh() -> SequenceView {
        SequenceView::Created(GeneratorView::fresh(u64::MAX))
    }

    /// The generator holds what its phase admits.
    pub open spec fn valid(self) -> bool {
        match self {
            SequenceView::Undefined => true,
            SequenceView::Created(g) => g.valid_uninitialized(),
            SequenceView::Ready(g) => g.valid_suspended(),
            SequenceView::Closed(g) => g.valid_completed(),
        }
    }

    /// The primes found so far; none where there is no generator.
    pub open spec fn discovered(self) -> Seq<u64> {
        match self {
            SequenceView::Undefined => Seq::empty(),
            SequenceView::Created(g) => g.discovered,
            SequenceView::Ready(g) => g.discovered,
            SequenceView::Closed(g) => g.discovered,
        }
    }

    /// The largest value that the generator may produce; 0 where there is no
    /// generator.
    pub open spec fn limit(self) -> u64 {
        match self {
            SequenceView::Undefined => 0,
            SequenceView::Created(g) => g.limit,
            SequenceView::Ready(g) => g.limit,
            SequenceView::Closed(g) => g.limit,
        }
    }

    /// A step from this state produces nothing: the sequence is closed or
    /// its slot is empty, or it is ready and no prime is left within its limit.
    pub open spec fn spent(self) -> bool {
        match self {
            SequenceView::Undefined => true,
            SequenceView::Created(_) => false,
            SequenceView::Ready(g) => no_prime_between(g.cursor as int, g.limit as int),
            SequenceView::Closed(_) => true,
        }
    }
}

/// One step of a sequence: from `pre` it leads to `post` and produces `out`.
///
/// A created sequence produces 2 and becomes ready. A ready one produces the
/// smallest prime above its cursor and stays ready, or, where its limit admits
/// none, produces nothing and becomes closed. A closed one produces nothing
/// and stays as it is, and so does an empty slot.
pub open spec fn advances(pre: SequenceView, post: SequenceView, out: Option<u64>) -> bool {
    match pre {
        SequenceView::Created(g) => out == Some(2u64) && post == SequenceView::Ready(g.started()),
        SequenceView::Ready(g) => match out {
            Some(p) => {
                &&& is_next_prime(g.cursor as int, p as int, g.limit as int)
                &&& post == SequenceView::Ready(g.extended(p))
            },
            None => {
                &&& no_prime_between(g.cursor as int, g.limit as int)
                &&& post == SequenceView::Closed(g.exhausted())
            },
        },
        SequenceView::Closed(_) => out is None && post == pre,
        SequenceView::Undefined => out is None && post == pre,
    }
}

/// A step from a state whose generator holds what its phase admits leads to
/// such a state again.
pub proof fn lemma_step_keeps_validity(pre: SequenceView, post: SequenceView, out: Option<u64>)
    requires
        pre.valid(),
        advances(pre, post, out),
    ensures
        post.valid(),
{
    match pre {
        SequenceView::Created(g) => {
            lemma_first_prime_list();
        },
        SequenceView::Ready(g) => {
            match out {
                Some(p) => {
                    lemma_prime_list_grows(g.discovered, g.cursor as int, p, g.limit as int);
                },
                None => {
                    lemma_prime_list_reaches(g.discovered, g.cursor as int, g.limit as int);
                },
            }
        },
        SequenceView::Closed(_) => {},
        SequenceView::Undefined => {},
    }
}

} // verus!
