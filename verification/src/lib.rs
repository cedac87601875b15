//! A state-broadcasting synchronization primitive: a single shared cell holds
//! the latest value of some observable state, any number of concurrent tasks
//! may read it, update it, or suspend until it reaches a value they are
//! interested in.
//!
//! The cell itself distributes values through a watch channel; the decision
//! logic of a waiting task — when an observation ends the wait, when the wait
//! keeps going, and which error is surfaced — is the verified wait state
//! machine in [`wait`].

pub mod cell;
pub mod laws;
pub mod wait;

pub use cell::Waiter;
pub use wait::WaitError;
pub use wait::WaitEvent;
pub use wait::WaitStatus;
pub use wait::scan_events;
pub use wait::timeout_verdict;
pub use wait::wait_step;
pub use wait::wait_verdict;
