//! The semaphore state and the atomic decision steps of its protocol.
//!
//! `acquire` here is one decision step of the blocking protocol: the caller
//! holds the lock that serializes access, asks once, and either gets a
//! handle, is told to wait for the next release, or learns that the request
//! can never be satisfied. The embedding program loops on `Ok(None)` with a
//! condition variable (broadcast on every release, so each waiter re-checks
//! its own weight) and treats `Err` as a fatal usage error, as a request
//! larger than the whole capacity could never be granted by waiting.

use vstd::prelude::*;

verus! {

/// Capacity `capacity`, of which `outstanding` is currently reserved by live
/// [`Acquired`] handles. All transitions keep `outstanding` within
/// `0 ..= capacity`.
pub struct Semaphore {
    capacity: usize,
    outstanding: usize,
}

/// A granted reservation of `weight` units. Move-only and not clonable, and
/// consumed by [`Semaphore::release`]: a grant can be given back at most
/// once, and only by its sole owner.
#[derive(Debug, PartialEq, Eq)]
pub struct Acquired {
    weight: usize,
}

/// Misuse that waiting can never cure; the embedding program treats it as
/// fatal rather than retrying.
#[derive(Debug, PartialEq, Eq, Structural)]
pub enum AcquireError {
    /// The requested weight exceeds the whole capacity, so no sequence of
    /// releases could ever make room for it.
    OverCapacityRequest,
}

/// When a request of `weight` may be granted: it is a sensible weight, and it
/// fits in what is left of the capacity.
pub open spec fn can_grant(capacity: int, outstanding: int, weight: int) -> bool {
    1 <= weight <= capacity && outstanding + weight <= capacity
}

/// Releases wake waiters: once releases (here, one of weight `released`)
/// have brought the reserved weight down far enough that a pending request
/// of weight `weight` fits, that request's next decision step is owed a
/// grant by [`Semaphore::acquire`]'s contract. The embedding program
/// broadcasts to every waiter after each release, so that step is indeed
/// re-run; only a rival that keeps winning the race for the freed capacity
/// can defer the waiter further.
pub proof fn lemma_release_enables_fitting_request(
    capacity: int,
    outstanding: int,
    released: int,
    weight: int,
)
    requires
        1 <= weight <= capacity,
        0 <= released <= outstanding <= capacity,
        capacity - (outstanding - released) >= weight,
    ensures
        can_grant(capacity, outstanding - released, weight),
{
}

impl Acquired {
    /// The weight this handle reserved.
    pub closed spec fn spec_weight(&self) -> int {
        self.weight as int
    }

    pub fn weight(&self) -> (w: usize)
        ensures
            w == self.spec_weight(),
    {
        self.weight
    }
}

impl Semaphore {
    /// The fixed bound on total concurrently reserved weight.
    pub closed spec fn spec_capacity(&self) -> int {
        self.capacity as int
    }

    /// The sum of weights currently reserved by live handles.
    pub closed spec fn spec_outstanding(&self) -> int {
        self.outstanding as int
    }

    /// Well-formedness: the capacity is positive and the reserved weight
    /// never leaves `0 ..= capacity`.
    pub open spec fn wf(&self) -> bool {
        1 <= self.spec_capacity() && 0 <= self.spec_outstanding() <= self.spec_capacity()
    }

    /// A fresh semaphore with nothing reserved. A capacity of zero would
    /// deadlock every acquirer, so it is ruled out up front.
    pub fn new(capacity: usize) -> (s: Semaphore)
        requires
            1 <= capacity,
        ensures
            s.wf(),
            s.spec_capacity() == capacity,
            s.spec_outstanding() == 0,
    {
        Semaphore { capacity, outstanding: 0 }
    }

    pub fn capacity(&self) -> (c: usize)
        ensures
            c == self.spec_capacity(),
    {
        self.capacity
    }

    pub fn outstanding(&self) -> (o: usize)
        ensures
            o == self.spec_outstanding(),
    {
        self.outstanding
    }

    /// One decision step of a (possibly blocking) acquisition, taken with
    /// exclusive access to the state.
    ///
    /// - `Err(OverCapacityRequest)` exactly when `weight` exceeds the whole
    ///   capacity: such a request could never be granted, so it fails at once
    ///   instead of waiting, and the state is untouched.
    /// - `Ok(Some(handle))` exactly when the request fits in the remaining
    ///   capacity: the weight is reserved and the handle records it.
    /// - `Ok(None)` otherwise: the request is sound but must wait for a
    ///   release, and the state is untouched. The caller retries after the
    ///   next release.
    pub fn acquire(&mut self, weight: usize) -> (r: Result<Option<Acquired>, AcquireError>)
        requires
            old(self).wf(),
            1 <= weight,
        ensures
            final(self).wf(),
            final(self).spec_capacity() == old(self).spec_capacity(),
            weight > old(self).spec_capacity() ==> {
                &&& r == Result::<Option<Acquired>, AcquireError>::Err(
                    AcquireError::OverCapacityRequest,
                )
                &&& final(self).spec_outstanding() == old(self).spec_outstanding()
            },
            can_grant(old(self).spec_capacity(), old(self).spec_outstanding(), weight as int) ==> {
                &&& r matches Ok(Some(handle)) && handle.spec_weight() == weight
                &&& final(self).spec_outstanding() == old(self).spec_outstanding() + weight
            },
            weight <= old(self).spec_capacity() && old(self).spec_outstanding() + weight > old(
                self,
            ).spec_capacity() ==> {
                &&& r == Result::<Option<Acquired>, AcquireError>::Ok(None)
                &&& final(self).spec_outstanding() == old(self).spec_outstanding()
            },
    {
        if weight > self.capacity {
            return Err(AcquireError::OverCapacityRequest);
        }
        if self.capacity - self.outstanding >= weight {
            self.outstanding = self.outstanding + weight;
            Ok(Some(Acquired { weight }))
        } else {
            Ok(None)
        }
    }

    /// Give a grant back: `outstanding` drops by exactly the handle's
    /// weight. The handle is consumed, so each grant is released at most
    /// once; the embedding program calls this from the scope-exit of the
    /// guard that owns the handle (on every exit path), then broadcasts to
    /// all waiters so each re-checks its own request.
    ///
    /// A handle this semaphore granted and has not yet taken back always has
    /// `spec_weight() <= spec_outstanding()`; the precondition only rules
    /// out a handle smuggled in from some other semaphore.
    pub fn release(&mut self, handle: Acquired)
        requires
            old(self).wf(),
            handle.spec_weight() <= old(self).spec_outstanding(),
        ensures
            final(self).wf(),
            final(self).spec_capacity() == old(self).spec_capacity(),
            final(self).spec_outstanding() == old(self).spec_outstanding() - handle.spec_weight(),
    {
        self.outstanding = self.outstanding - handle.weight;
    }
}

} // verus!
