//! A weighted counting semaphore: a bounded budget of "weight" that callers
//! reserve in variable-sized amounts and give back exactly once.
//!
//! The state and every decision of the protocol live in [`semaphore`]; the
//! blocking side (a mutual-exclusion lock with a condition variable that
//! re-runs the decision after every release) is left to the embedding
//! program, which drives [`semaphore::Semaphore::acquire`] in a wait loop.
//! [`model`] states the protocol as a transition system over traces and
//! proves its global invariants.

pub mod model;
pub mod semaphore;

pub use semaphore::AcquireError;
pub use semaphore::Acquired;
pub use semaphore::Semaphore;
