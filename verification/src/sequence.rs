//! The sequence of primes: one slot that holds the generator in its current
//! phase, and the step that produces the next prime or reports the end.

use vstd::prelude::*;
use crate::generator::{Completed, PrimesCoroutine, Suspended, Uninitialized};
use crate::model::{advances, GeneratorView, SequenceView};

verus! {

/// A generator together with its phase. `Undefined` is the empty slot that a
/// step leaves behind while it owns the generator.
pub enum CoroutineStatus {
    Undefined,
    Created(PrimesCoroutine<Uninitialized>),
    Ready(PrimesCoroutine<Suspended>),
    Closed(PrimesCoroutine<Completed>),
}

impl View for CoroutineStatus {
    type V = SequenceView;

    open spec fn view(&self) -> SequenceView {
        match self {
            CoroutineStatus::Undefined => SequenceView::Undefined,
            CoroutineStatus::Created(g) => SequenceView::Created(g@),
            CoroutineStatus::Ready(g) => SequenceView::Ready(g@),
            CoroutineStatus::Closed(g) => SequenceView::Closed(g@),
        }
    }
}

impl Default for CoroutineStatus {
    /// The empty slot.
    fn default() -> (status: Self)
        ensures
            status@ == SequenceView::Undefined,
    {
        CoroutineStatus::Undefined
    }
}

impl CoroutineStatus {
    /// Takes one step: hands the generator the operation of its phase, and
    /// returns the generator in its new phase with what it produced.
    pub fn next(self) -> (r: (CoroutineStatus, Option<u64>))
        ensures
            advances(self@, r.0@, r.1),
            r.1 is None <==> self@.spent(),
            r.0@.valid(),
    {
        match self {
            CoroutineStatus::Created(coroutine) => {
                match coroutine.init() {
                    Ok((result, coroutine)) => {
                        proof {
                            use_type_invariant(&coroutine);
                        }
                        (CoroutineStatus::Ready(coroutine), Some(result))
                    },
                    Err(coroutine) => (CoroutineStatus::Closed(coroutine), None),
                }
            },
            CoroutineStatus::Ready(coroutine) => {
                match coroutine.resume() {
                    Ok((result, coroutine)) => {
                        proof {
                            use_type_invariant(&coroutine);
                        }
                        (CoroutineStatus::Ready(coroutine), Some(result))
                    },
                    Err(coroutine) => {
                        proof {
                            use_type_invariant(&coroutine);
                        }
                        (CoroutineStatus::Closed(coroutine), None)
                    },
                }
            },
            CoroutineStatus::Closed(coroutine) => {
                proof {
                    use_type_invariant(&coroutine);
                }
                (CoroutineStatus::Closed(coroutine), None)
            },
            CoroutineStatus::Undefined => (CoroutineStatus::Undefined, None),
        }
    }
}

/// The primes in ascending order, one per call of `next`.
pub struct Prime {
    coroutine: CoroutineStatus,
}

impl View for Prime {
    type V = SequenceView;

    closed spec fn view(&self) -> SequenceView {
        self.coroutine@
    }
}

impl Prime {
    /// A sequence over the whole range of `u64` that has produced nothing yet.
    pub fn new() -> (sequence: Prime)
        ensures
            sequence@ == SequenceView::fresh(),
    {
        Prime { coroutine: CoroutineStatus::Created(PrimesCoroutine::new()) }
    }

    /// A sequence that has produced nothing yet and will produce no value
    /// above `limit`.
    pub fn with_limit(limit: u64) -> (sequence: Prime)
        requires
            limit >= 2,
        ensures
            sequence@ == SequenceView::Created(GeneratorView::fresh(limit)),
    {
        Prime { coroutine: CoroutineStatus::Created(PrimesCoroutine::with_limit(limit)) }
    }

    /// The next prime, or `None` once the range of the generator holds none.
    /// The slot is empty only while this call runs.
    pub fn next(&mut self) -> (r: Option<u64>)
        ensures
            advances(old(self)@, final(self)@, r),
            r is None <==> old(self)@.spent(),
            final(self)@.valid(),
    {
        let mut coroutine = CoroutineStatus::default();
        std::mem::swap(&mut coroutine, &mut self.coroutine);
        match coroutine.next() {
            (status, Some(value)) => {
                self.coroutine = status;
                Some(value)
            },
            (status, None) => {
                self.coroutine = status;
                None
            },
        }
    }

    /// The generator in its current phase, to read what it has found.
    pub fn status(&self) -> (status: &CoroutineStatus)
        ensures
            status@ == self@,
    {
        &self.coroutine
    }
}

} // verus!
