//! Declarations and thin wrappers for the asynchronous channel primitives
//! that carry event batches and the one-shot cancellation signal.

use vstd::prelude::*;

verus! {

#[verifier::external_type_specification]
#[verifier::external_body]
#[verifier::reject_recursive_types(T)]
pub struct ExUnboundedSender<T>(tokio::sync::mpsc::UnboundedSender<T>);

#[verifier::external_type_specification]
#[verifier::external_body]
#[verifier::reject_recursive_types(T)]
pub struct ExUnboundedReceiver<T>(tokio::sync::mpsc::UnboundedReceiver<T>);

#[verifier::external_type_specification]
#[verifier::external_body]
#[verifier::reject_recursive_types(T)]
pub struct ExOneshotSender<T>(tokio::sync::oneshot::Sender<T>);

/// Relies on tokio::sync::mpsc::unbounded_channel: allocates a fresh
/// unbounded FIFO queue and returns its send and receive halves.
#[verifier::external_body]
pub(crate) fn unbounded_pair<T>() -> (r: (
    tokio::sync::mpsc::UnboundedSender<T>,
    tokio::sync::mpsc::UnboundedReceiver<T>,
)) {
    tokio::sync::mpsc::unbounded_channel()
}

/// Relies on tokio's UnboundedReceiver::try_recv: hands out the next queued
/// value in delivery order, `None` when the queue is empty or every sender
/// is gone. What arrives depends on the senders, so nothing is promised of
/// the result; callers must handle every outcome.
#[verifier::external_body]
pub(crate) fn try_recv_now<T>(rx: &mut tokio::sync::mpsc::UnboundedReceiver<T>) -> (r: Option<T>) {
    rx.try_recv().ok()
}

/// Relies on tokio's oneshot::Sender::send: delivers `flag` to the receiving
/// half if it still listens. Delivery is best-effort; the result says only
/// whether the receiver was still there.
#[verifier::external_body]
pub(crate) fn oneshot_send(tx: tokio::sync::oneshot::Sender<bool>, flag: bool) -> (delivered:
    bool) {
    tx.send(flag).is_ok()
}

} // verus!
