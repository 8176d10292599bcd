//! What holds of every run of a sequence of primes: of the values that
//! successive steps produce, and of the list that the generator keeps.

use vstd::prelude::*;
use crate::arith::lemma_primes_upto_30;
use crate::model::{advances, lemma_step_keeps_validity, SequenceView};
use crate::prime_list::{is_next_prime, is_prime_prefix, lists_primes_upto, strictly_increasing};

verus! {

/// A run: `states` are the states that a sequence goes through, and
/// `outputs[i]` is what the step from `states[i]` to `states[i + 1]` produced.
pub open spec fn is_run(states: Seq<SequenceView>, outputs: Seq<Option<u64>>) -> bool {
    &&& states.len() == outputs.len() + 1
    &&& forall|i: int|
        0 <= i < outputs.len() ==> advances(states[i], states[i + 1], #[trigger] outputs[i])
}

/// A run of a sequence that had produced nothing before it.
pub open spec fn is_run_from_start(states: Seq<SequenceView>, outputs: Seq<Option<u64>>) -> bool {
    &&& is_run(states, outputs)
    &&& states[0] is Created
    &&& states[0].valid()
}

/// Each of the first `n` steps produced a value.
pub open spec fn all_produced(outputs: Seq<Option<u64>>, n: int) -> bool {
    &&& 0 <= n <= outputs.len()
    &&& forall|i: int| 0 <= i < n ==> (#[trigger] outputs[i]) is Some
}

/// The values that the first `n` steps produced, in the order of the steps.
pub open spec fn produced(outputs: Seq<Option<u64>>, n: int) -> Seq<u64> {
    Seq::new(n as nat, |i: int| outputs[i].unwrap())
}

/// After `n` steps that each produced a value, the sequence is ready (or, with
/// no step taken, still as created), its generator holds what its phase
/// admits, and its list is the values produced.
proof fn lemma_run_while_producing(
    states: Seq<SequenceView>,
    outputs: Seq<Option<u64>>,
    n: int,
)
    requires
        is_run_from_start(states, outputs),
        all_produced(outputs, n),
    ensures
        states[n].valid(),
        states[n].discovered() == produced(outputs, n),
        n > 0 ==> states[n] is Ready,
        states[n].limit() == states[0].limit(),
    decreases n,
{
    if n == 0 {
        assert(states[0].discovered() =~= produced(outputs, 0));
    } else {
        lemma_run_while_producing(states, outputs, n - 1);
        let pre = states[n - 1];
        let out = outputs[n - 1];
        assert(advances(pre, states[n - 1 + 1], out));
        lemma_step_keeps_validity(pre, states[n], out);
        assert(produced(outputs, n) =~= produced(outputs, n - 1).push(out.unwrap()));
    }
}

/// The first `n` values that a sequence produces are the first `n` primes in
/// ascending order.
pub proof fn lemma_run_produces_first_primes(
    states: Seq<SequenceView>,
    outputs: Seq<Option<u64>>,
    n: int,
)
    requires
        is_run_from_start(states, outputs),
        all_produced(outputs, n),
        n >= 1,
    ensures
        produced(outputs, n).len() == n,
        is_prime_prefix(produced(outputs, n)),
{
    lemma_run_while_producing(states, outputs, n);
}

/// After `k` steps that each produced a value, the list of the generator is
/// exactly those `k` values, in the order in which they were produced.
pub proof fn lemma_run_lists_what_it_produced(
    states: Seq<SequenceView>,
    outputs: Seq<Option<u64>>,
    k: int,
)
    requires
        is_run_from_start(states, outputs),
        all_produced(outputs, k),
    ensures
        states[k].discovered() == produced(outputs, k),
{
    lemma_run_while_producing(states, outputs, k);
}

/// Once a step has produced nothing, no later step produces anything, and the
/// state stays as that step left it.
pub proof fn lemma_run_end_is_final(
    states: Seq<SequenceView>,
    outputs: Seq<Option<u64>>,
    i: int,
    j: int,
)
    requires
        is_run(states, outputs),
        0 <= i <= j < outputs.len(),
        outputs[i] is None,
    ensures
        outputs[j] is None,
        states[j + 1] == states[i + 1],
        !(states[j + 1] is Ready) && !(states[j + 1] is Created),
    decreases j - i,
{
    if j == i {
        assert(advances(states[i], states[i + 1], outputs[i]));
    } else {
        lemma_run_end_is_final(states, outputs, i, j - 1);
        assert(advances(states[j], states[j + 1], outputs[j]));
    }
}

/// Every state of a run from the start holds what its phase admits, keeps the
/// limit, and is no empty slot.
proof fn lemma_run_stays_valid(states: Seq<SequenceView>, outputs: Seq<Option<u64>>, n: int)
    requires
        is_run_from_start(states, outputs),
        0 <= n <= outputs.len(),
    ensures
        states[n].valid(),
        !(states[n] is Undefined),
        states[n].limit() == states[0].limit(),
    decreases n,
{
    if n > 0 {
        lemma_run_stays_valid(states, outputs, n - 1);
        assert(advances(states[n - 1], states[n - 1 + 1], outputs[n - 1]));
        lemma_step_keeps_validity(states[n - 1], states[n], outputs[n - 1]);
    }
}

/// A sequence produces no value above its limit, and it produces nothing
/// only when its list holds every prime up to the limit.
pub proof fn lemma_run_ends_when_range_is_spent(
    states: Seq<SequenceView>,
    outputs: Seq<Option<u64>>,
    i: int,
)
    requires
        is_run_from_start(states, outputs),
        0 <= i < outputs.len(),
    ensures
        outputs[i] matches Some(p) ==> p <= states[0].limit(),
        outputs[i] is None ==> lists_primes_upto(
            states[i + 1].discovered(),
            states[0].limit() as int,
        ),
{
    lemma_run_stays_valid(states, outputs, i);
    lemma_run_stays_valid(states, outputs, i + 1);
    assert(advances(states[i], states[i + 1], outputs[i]));
}

/// The first value and `k` further ones make a list of `k + 1` entries, each
/// larger than the one before it.
pub proof fn lemma_run_list_grows_in_order(
    states: Seq<SequenceView>,
    outputs: Seq<Option<u64>>,
    k: int,
)
    requires
        is_run_from_start(states, outputs),
        k >= 0,
        all_produced(outputs, k + 1),
    ensures
        states[k + 1].discovered().len() == k + 1,
        strictly_increasing(states[k + 1].discovered()),
{
    lemma_run_while_producing(states, outputs, k + 1);
}

/// A step of a ready sequence whose limit admits the prime that follows its
/// cursor produces that prime, and leaves the cursor on it.
proof fn lemma_step_produces(pre: SequenceView, post: SequenceView, out: Option<u64>, next: u64)
    requires
        advances(pre, post, out),
        pre matches SequenceView::Ready(g) && is_next_prime(
            g.cursor as int,
            next as int,
            g.limit as int,
        ),
    ensures
        out == Some(next),
        post matches SequenceView::Ready(g) && g.cursor == next && g.limit == pre.limit(),
{
}

/// A sequence whose limit is 29 or more begins with 2, 3, 5, 7, 11, 13, 17,
/// 19, 23 and 29.
pub proof fn lemma_run_begins_with_ten_primes(
    states: Seq<SequenceView>,
    outputs: Seq<Option<u64>>,
)
    requires
        is_run_from_start(states, outputs),
        outputs.len() >= 10,
        states[0].limit() >= 29,
    ensures
        all_produced(outputs, 10),
        produced(outputs, 10) == seq![2u64, 3, 5, 7, 11, 13, 17, 19, 23, 29],
{
    lemma_primes_upto_30();
    assert(advances(states[0], states[1], outputs[0]));
    assert(advances(states[1], states[2], outputs[1]));
    lemma_step_produces(states[1], states[2], outputs[1], 3);
    assert(advances(states[2], states[3], outputs[2]));
    lemma_step_produces(states[2], states[3], outputs[2], 5);
    assert(advances(states[3], states[4], outputs[3]));
    lemma_step_produces(states[3], states[4], outputs[3], 7);
    assert(advances(states[4], states[5], outputs[4]));
    lemma_step_produces(states[4], states[5], outputs[4], 11);
    assert(advances(states[5], states[6], outputs[5]));
    lemma_step_produces(states[5], states[6], outputs[5], 13);
    assert(advances(states[6], states[7], outputs[6]));
    lemma_step_produces(states[6], states[7], outputs[6], 17);
    assert(advances(states[7], states[8], outputs[7]));
    lemma_step_produces(states[7], states[8], outputs[7], 19);
    assert(advances(states[8], states[9], outputs[8]));
    lemma_step_produces(states[8], states[9], outputs[8], 23);
    assert(advances(states[9], states[10], outputs[9]));
    lemma_step_produces(states[9], states[10], outputs[9], 29);
    assert(produced(outputs, 10) =~= seq![2u64, 3, 5, 7, 11, 13, 17, 19, 23, 29]);
}

/// The slot of a sequence is never left empty: no state of a run that starts
/// with a generator is without one.
pub proof fn lemma_run_never_shows_empty_slot(
    states: Seq<SequenceView>,
    outputs: Seq<Option<u64>>,
    n: int,
)
    requires
        is_run(states, outputs),
        !(states[0] is Undefined),
        0 <= n <= outputs.len(),
    ensures
        !(states[n] is Undefined),
    decreases n,
{
    if n > 0 {
        lemma_run_never_shows_empty_slot(states, outputs, n - 1);
        assert(advances(states[n - 1], states[n - 1 + 1], outputs[n - 1]));
    }
}

} // verus!
