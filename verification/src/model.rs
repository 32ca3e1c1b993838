//! The protocol as a transition system over traces, with its invariants.
//!
//! The mutual-exclusion lock around the semaphore state serializes every
//! grant and every release, so any concurrent execution, under any
//! interleaving, is some sequence of the two operations below. A trace is
//! such a sequence; [`lemma_trace_inv`] shows that along every admissible
//! trace, at every instant, the outstanding counter equals the sum of the
//! weights of the handles granted and not yet released, never goes negative,
//! and never exceeds the capacity.

use crate::semaphore::can_grant;
use vstd::prelude::*;

verus! {

/// One serialized operation of the protocol: a grant of `weight`, or the
/// release of the handle at position `idx` among the live ones.
pub enum SemOp {
    Acquire { weight: int },
    Release { idx: int },
}

/// The total weight of a collection of live handles.
pub open spec fn sum_weights(held: Seq<int>) -> int
    decreases held.len(),
{
    if held.len() == 0 {
        0
    } else {
        sum_weights(held.drop_last()) + held.last()
    }
}

/// Every live handle reserves at least one unit.
pub open spec fn all_positive(held: Seq<int>) -> bool {
    forall|i: int| 0 <= i < held.len() ==> 1 <= #[trigger] held[i]
}

/// When an operation is admissible: a grant must fit the remaining capacity
/// (a waiter simply does not take this step until it does), and a release
/// must name a live handle.
pub open spec fn step_ok(capacity: int, outstanding: int, held: Seq<int>, op: SemOp) -> bool {
    match op {
        SemOp::Acquire { weight } => can_grant(capacity, outstanding, weight),
        SemOp::Release { idx } => 0 <= idx < held.len(),
    }
}

/// The outstanding counter after an operation: a grant adds its weight, a
/// release subtracts exactly the weight of the handle it gives back.
pub open spec fn step_outstanding(outstanding: int, held: Seq<int>, op: SemOp) -> int {
    match op {
        SemOp::Acquire { weight } => outstanding + weight,
        SemOp::Release { idx } => outstanding - held[idx],
    }
}

/// The live handles after an operation: a grant adds one, a release removes
/// the one it names — each handle is removed at most once.
pub open spec fn step_held(held: Seq<int>, op: SemOp) -> Seq<int> {
    match op {
        SemOp::Acquire { weight } => held.push(weight),
        SemOp::Release { idx } => held.remove(idx),
    }
}

/// Whether every step of the trace was admissible when it was taken.
pub open spec fn trace_ok(capacity: int, ops: Seq<SemOp>) -> bool
    decreases ops.len(),
{
    ops.len() == 0 || {
        &&& trace_ok(capacity, ops.drop_last())
        &&& step_ok(
            capacity,
            trace_outstanding(ops.drop_last()),
            trace_held(ops.drop_last()),
            ops.last(),
        )
    }
}

/// The outstanding counter after a trace, starting from an empty semaphore.
pub open spec fn trace_outstanding(ops: Seq<SemOp>) -> int
    decreases ops.len(),
{
    if ops.len() == 0 {
        0
    } else {
        step_outstanding(
            trace_outstanding(ops.drop_last()),
            trace_held(ops.drop_last()),
            ops.last(),
        )
    }
}

/// The live handles after a trace, starting from an empty semaphore.
pub open spec fn trace_held(ops: Seq<SemOp>) -> Seq<int>
    decreases ops.len(),
{
    if ops.len() == 0 {
        Seq::<int>::empty()
    } else {
        step_held(trace_held(ops.drop_last()), ops.last())
    }
}

/// The invariant of the protocol: the counter is exactly the sum of the
/// weights of the live handles, it is never negative, and the sum of held
/// weights never exceeds the capacity.
pub open spec fn sem_inv(capacity: int, outstanding: int, held: Seq<int>) -> bool {
    &&& outstanding == sum_weights(held)
    &&& 0 <= outstanding <= capacity
    &&& all_positive(held)
}

proof fn lemma_sum_push(held: Seq<int>, w: int)
    ensures
        sum_weights(held.push(w)) == sum_weights(held) + w,
{
    assert(held.push(w).drop_last() =~= held);
}

proof fn lemma_sum_remove(held: Seq<int>, idx: int)
    requires
        0 <= idx < held.len(),
    ensures
        sum_weights(held.remove(idx)) == sum_weights(held) - held[idx],
    decreases held.len(),
{
    if idx == held.len() - 1 {
        assert(held.remove(idx) =~= held.drop_last());
    } else {
        lemma_sum_remove(held.drop_last(), idx);
        assert(held.remove(idx).drop_last() =~= held.drop_last().remove(idx));
        assert(held.remove(idx).last() == held.last());
    }
}

proof fn lemma_sum_nonneg(held: Seq<int>)
    requires
        all_positive(held),
    ensures
        0 <= sum_weights(held),
    decreases held.len(),
{
    if held.len() > 0 {
        assert(all_positive(held.drop_last()));
        lemma_sum_nonneg(held.drop_last());
    }
}

/// Every admissible operation preserves the invariant. In particular a
/// release decreases the counter by exactly the weight of the handle it
/// gives back, and the counter stays within `0 ..= capacity`.
pub proof fn lemma_step_preserves_inv(capacity: int, outstanding: int, held: Seq<int>, op: SemOp)
    requires
        sem_inv(capacity, outstanding, held),
        step_ok(capacity, outstanding, held, op),
    ensures
        sem_inv(capacity, step_outstanding(outstanding, held, op), step_held(held, op)),
{
    match op {
        SemOp::Acquire { weight } => {
            lemma_sum_push(held, weight);
            assert(all_positive(held.push(weight)));
        },
        SemOp::Release { idx } => {
            lemma_sum_remove(held, idx);
            assert forall|i: int| 0 <= i < held.remove(idx).len() implies 1 <= #[trigger] held.remove(
                idx,
            )[i] by {
                if i < idx {
                    assert(held.remove(idx)[i] == held[i]);
                } else {
                    assert(held.remove(idx)[i] == held[i + 1]);
                }
            }
            lemma_sum_nonneg(held.remove(idx));
        },
    }
}

/// The capacity invariant of the whole protocol: along every admissible
/// trace — hence under every interleaving of concurrent acquirers and
/// releasers, since the lock serializes them — the sum of the weights of all
/// currently held handles equals the outstanding counter, never exceeds the
/// capacity, and the counter never goes negative.
pub proof fn lemma_trace_inv(capacity: int, ops: Seq<SemOp>)
    requires
        1 <= capacity,
        trace_ok(capacity, ops),
    ensures
        sem_inv(capacity, trace_outstanding(ops), trace_held(ops)),
        trace_outstanding(ops) == sum_weights(trace_held(ops)),
        0 <= trace_outstanding(ops),
        sum_weights(trace_held(ops)) <= capacity,
    decreases ops.len(),
{
    if ops.len() > 0 {
        lemma_trace_inv(capacity, ops.drop_last());
        lemma_step_preserves_inv(
            capacity,
            trace_outstanding(ops.drop_last()),
            trace_held(ops.drop_last()),
            ops.last(),
        );
    }
}

/// Every prefix of an admissible trace is admissible, so [`lemma_trace_inv`]
/// speaks of every instant of an execution, not only its end.
pub proof fn lemma_trace_ok_prefix(capacity: int, ops: Seq<SemOp>, n: int)
    requires
        trace_ok(capacity, ops),
        0 <= n <= ops.len(),
    ensures
        trace_ok(capacity, ops.take(n)),
    decreases ops.len(),
{
    if n == ops.len() {
        assert(ops.take(n) =~= ops);
    } else {
        assert(ops.take(n) =~= ops.drop_last().take(n));
        lemma_trace_ok_prefix(capacity, ops.drop_last(), n);
    }
}

} // verus!
