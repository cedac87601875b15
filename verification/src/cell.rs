//! The shared cell: a single authoritative current value, distributed through
//! a watch channel.
//!
//! The cell owns the update half of the channel and one receiving half; any
//! number of further observation handles can be derived from it. Updating and
//! reading never suspend; the suspending wait loops live with the runtime that
//! drives them and feed their observations to the verified state machine in
//! [`crate::wait`].

use vstd::prelude::*;

verus! {

/// tokio's watch channel update half: sends a value to all receivers.
#[verifier::external_type_specification]
#[verifier::external_body]
#[verifier::reject_recursive_types(T)]
pub struct ExSender<T>(tokio::sync::watch::Sender<T>);

/// tokio's watch channel receiving half: reads the latest sent value.
#[verifier::external_type_specification]
#[verifier::external_body]
#[verifier::reject_recursive_types(T)]
pub struct ExReceiver<T>(tokio::sync::watch::Receiver<T>);

/// Relies on tokio::sync::watch::channel: creates a connected update/receive
/// pair whose current value is `init`.
#[verifier::external_body]
fn watch_channel<T>(init: T) -> (tokio::sync::watch::Sender<T>, tokio::sync::watch::Receiver<T>) {
    tokio::sync::watch::channel(init)
}

/// Relies on tokio::sync::watch::Sender::send_replace: replaces the channel's
/// current value, notifying all receivers; total, it never fails or blocks,
/// even with no receiver left.
#[verifier::external_body]
fn send_value<T>(tx: &tokio::sync::watch::Sender<T>, value: T) {
    let _ = tx.send_replace(value);
}

/// Relies on tokio::sync::watch::Receiver::borrow: a reference to the most
/// recently sent value, copied out here for bitwise-copyable values.
#[verifier::external_body]
fn snapshot_value<C: Copy>(rx: &tokio::sync::watch::Receiver<C>) -> C {
    *rx.borrow()
}

/// Relies on Clone for tokio::sync::watch::Receiver: a new, independent
/// receiving handle onto the same channel.
#[verifier::external_body]
fn clone_receiver<T>(rx: &tokio::sync::watch::Receiver<T>) -> tokio::sync::watch::Receiver<T> {
    rx.clone()
}

/// A single shared cell holding the latest value of some observable state.
/// One logical owner updates it with [`Waiter::set`]; any number of tasks may
/// read it or derive observation handles and suspend until it reaches a value
/// they are interested in.
#[derive(Debug)]
#[verifier::reject_recursive_types(T)]
pub struct Waiter<T> {
    ready_tx: tokio::sync::watch::Sender<T>,
    ready_rx: tokio::sync::watch::Receiver<T>,
}

impl<T> Waiter<T> where T: Clone + std::fmt::Debug + PartialEq + Send + Sync {
    /// Creates a cell whose current value is `init`: construction always
    /// takes an explicit initial value, there is no empty state.
    pub fn new(init: T) -> Waiter<T> {
        let (tx, rx) = watch_channel(init);
        Waiter { ready_tx: tx, ready_rx: rx }
    }

    /// Replaces the current value and wakes every task suspended on the cell
    /// so it can re-examine the new value. Total: it never fails, whatever
    /// the waiters are doing, and it never blocks the caller.
    pub fn set(&self, value: T) {
        send_value(&self.ready_tx, value);
    }

    /// Derives an independent observation handle onto the cell. Handles can
    /// be derived and dropped freely, without coordination with the owner,
    /// with other handles, or with in-flight updates.
    pub fn subscribe(&self) -> tokio::sync::watch::Receiver<T> {
        clone_receiver(&self.ready_rx)
    }
}

impl<C: Copy> Waiter<C> {
    /// A snapshot of the current value at the instant of the call; it never
    /// suspends and never fails. Offered only for bitwise-copyable values: a
    /// cheap copy is always safe where a reference into concurrently mutable
    /// shared state would not be.
    pub fn value(&self) -> C {
        snapshot_value(&self.ready_rx)
    }
}

impl Waiter<bool> {
    /// Sets the flag: shorthand for `set(true)`.
    pub fn set_true(&self) {
        self.set(true)
    }

    /// Clears the flag: shorthand for `set(false)`.
    pub fn set_false(&self) {
        self.set(false)
    }
}

} // verus!
