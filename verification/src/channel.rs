//! Trusted declarations for the bounded channels of `std::sync::mpsc`,
//! which carry the items that flow between blocks.

use vstd::prelude::*;
use std::sync::mpsc::Receiver;
use std::sync::mpsc::SyncSender;

verus! {

#[verifier::external_type_specification]
#[verifier::external_body]
#[verifier::reject_recursive_types(T)]
pub struct ExSyncSender<T>(SyncSender<T>);

#[verifier::external_type_specification]
#[verifier::external_body]
#[verifier::reject_recursive_types(T)]
pub struct ExReceiver<T>(Receiver<T>);

/// Relies on std::sync::mpsc::sync_channel: the two halves of a fresh
/// bounded FIFO queue with the given capacity.
#[verifier::external_body]
pub(crate) fn sync_channel_new<T>(bound: usize) -> (SyncSender<T>, Receiver<T>) {
    std::sync::mpsc::sync_channel(bound)
}

/// Relies on SyncSender::clone: another handle pushing into the same queue.
#[verifier::external_body]
pub(crate) fn sender_clone<T>(sender: &SyncSender<T>) -> SyncSender<T> {
    sender.clone()
}

/// Relies on SyncSender::send: it blocks while the queue is full and fails
/// exactly when the receiving half has been dropped. Which of the two holds
/// depends on the downstream, so nothing is promised of the result.
#[verifier::external_body]
pub(crate) fn sender_send<T>(sender: &SyncSender<T>, data: T) -> (ok: bool) {
    sender.send(data).is_ok()
}

} // verus!
