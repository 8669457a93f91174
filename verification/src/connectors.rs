//! Typed connectors: `Input<T>` owns a bounded FIFO queue (capacity 50) and
//! hands out cloneable senders; `Output<T>` fans a value out to every
//! connected sender in insertion order.

use vstd::prelude::*;
use std::sync::mpsc::Receiver;
use std::sync::mpsc::SyncSender;
use crate::channel::sync_channel_new;
use crate::channel::sender_clone;
use crate::channel::sender_send;
use crate::streaming_data::StreamErrCode;

verus! {

/// The bounded capacity of every input queue.
pub const INPUT_QUEUE_CAPACITY: usize = 50;

/// The name every variable and connector carries; registries key on it.
pub struct DataHeader {
    pub name: String,
}

/// A named input endpoint: the owned receiving half of a bounded queue,
/// plus one sending half that `sender()` clones for upstreams.
///
/// Both halves stay inside the struct, so its own queue can never count as
/// disconnected: `send` and `recv` are owed success (they may block).
#[verifier::reject_recursive_types(T)]
pub struct Input<T> {
    header: DataHeader,
    sender: SyncSender<T>,
    receiver: Receiver<T>,
}

/// Relies on SyncSender::send: it fails only when the receiving half of the
/// queue has been dropped, and `inp` owns that half, so the send blocks
/// while the queue is full and then succeeds.
#[verifier::external_body]
fn input_enqueue<T>(inp: &Input<T>, data: T) -> (ok: bool)
    ensures
        ok,
{
    inp.sender.send(data).is_ok()
}

/// Relies on Receiver::recv: it yields queued items in FIFO order and fails
/// only when every sender has been dropped, and `inp` owns one sender of
/// its own queue, so the receive blocks until an item arrives.
#[verifier::external_body]
fn input_dequeue<T>(inp: &Input<T>) -> (r: Option<T>)
    ensures
        r is Some,
{
    inp.receiver.recv().ok()
}

impl<T> Input<T> {
    pub fn new(name: &str) -> (r: Self)
        ensures
            r.name_spec() == name@,
    {
        let (sender, receiver) = sync_channel_new::<T>(INPUT_QUEUE_CAPACITY);
        Input { header: DataHeader { name: name.to_owned() }, sender, receiver }
    }

    pub closed spec fn name_spec(&self) -> Seq<char> {
        self.header.name@
    }

    pub fn name(&self) -> (r: &str)
        ensures
            r@ == self.name_spec(),
    {
        self.header.name.as_str()
    }

    /// A cloneable handle through which others push items onto this queue.
    pub fn sender(&self) -> SyncSender<T> {
        sender_clone(&self.sender)
    }

    /// Put one item on this input's own queue.
    pub fn send(&mut self, data: T) -> (r: Result<(), StreamErrCode>)
        ensures
            r == Ok::<(), StreamErrCode>(()),
            final(self).name_spec() == old(self).name_spec(),
    {
        let ok = input_enqueue(self, data);
        if ok {
            Ok(())
        } else {
            Err(StreamErrCode::SendDataError)
        }
    }

    /// Blocking pop through a shared borrow, for cells held inside a map.
    pub(crate) fn recv_borrowed(&self) -> (r: Result<T, StreamErrCode>)
        ensures
            r is Ok,
    {
        match input_dequeue(self) {
            Some(data) => Ok(data),
            None => Err(StreamErrCode::ReceiveDataError),
        }
    }

    /// Blocking pop of the next queued item.
    pub fn recv(&mut self) -> (r: Result<T, StreamErrCode>)
        ensures
            r is Ok,
            final(self).name_spec() == old(self).name_spec(),
    {
        match input_dequeue(self) {
            Some(data) => Ok(data),
            None => Err(StreamErrCode::ReceiveDataError),
        }
    }
}

/// A named fan-out point: a vector of senders filled by `connect`.
#[verifier::reject_recursive_types(T)]
pub struct Output<T> {
    header: DataHeader,
    senders: Vec<SyncSender<T>>,
}

/// Relies on T::clone through SyncSender::send; see `sender_send`.
#[verifier::external_body]
fn sender_send_clone<T: Clone>(sender: &SyncSender<T>, data: &T) -> (ok: bool) {
    sender.send(data.clone()).is_ok()
}

impl<T: Clone> Output<T> {
    pub fn new(name: &str) -> (r: Self)
        ensures
            r.name_spec() == name@,
            r.fan_out() == 0,
    {
        Output { header: DataHeader { name: name.to_owned() }, senders: Vec::new() }
    }

    pub closed spec fn name_spec(&self) -> Seq<char> {
        self.header.name@
    }

    /// How many downstream senders are connected.
    pub closed spec fn fan_out(&self) -> nat {
        self.senders@.len()
    }

    pub fn name(&self) -> (r: &str)
        ensures
            r@ == self.name_spec(),
    {
        self.header.name.as_str()
    }

    /// Attach one more downstream sender; it is served after all earlier ones.
    pub fn connect(&mut self, sender: SyncSender<T>)
        ensures
            final(self).fan_out() == old(self).fan_out() + 1,
            final(self).name_spec() == old(self).name_spec(),
    {
        self.senders.push(sender);
    }

    /// Clone the payload into every connected sender in insertion order;
    /// stop at the first sender whose queue has been dropped. With no
    /// senders connected this is a successful no-op.
    pub fn send(&self, data: T) -> (r: Result<(), StreamErrCode>)
        ensures
            r is Ok || r == Err::<(), StreamErrCode>(StreamErrCode::SendDataError),
            self.fan_out() == 0 ==> r is Ok,
    {
        let n = self.senders.len();
        let mut i: usize = 0;
        while i < n
            invariant
                i <= n,
                n == self.fan_out(),
            decreases n - i,
        {
            let ok = sender_send_clone(&self.senders[i], &data);
            if !ok {
                return Err(StreamErrCode::SendDataError);
            }
            i = i + 1;
        }
        Ok(())
    }
}

} // verus!
