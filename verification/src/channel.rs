//! Channel endpoints that remember what went through them.
//!
//! Actors talk to each other only through unbounded channels. An [`Outbox`]
//! is the writing end of one, an [`Inbox`] the reading end. Each keeps a
//! ghost log of the values it has passed on, so that the contracts of the
//! actors can speak of what was sent and received, and in what order.
use std::sync::mpsc::{Receiver, Sender};
use vstd::prelude::*;

verus! {

/// Trusted: the type `std::sync::mpsc::Sender`, the sending half of a
/// channel. It is opaque here: nothing is known of a value of it.
#[verifier::external_type_specification]
#[verifier::external_body]
#[verifier::reject_recursive_types(T)]
pub struct ExSender<T>(Sender<T>);

/// Trusted: the type `std::sync::mpsc::Receiver`, the receiving half of a
/// channel. It is opaque here: nothing is known of a value of it.
#[verifier::external_type_specification]
#[verifier::external_body]
#[verifier::reject_recursive_types(T)]
pub struct ExReceiver<T>(Receiver<T>);

/// Trusted: `std::sync::mpsc::channel`. Nothing is claimed of the two ends.
#[verifier::external_body]
fn open_channel<T>() -> (ends: (Sender<T>, Receiver<T>)) {
    std::sync::mpsc::channel()
}

/// Trusted: `std::sync::mpsc::Sender::send`. It never blocks. When it fails,
/// the receiving end is gone and the error holds the very value that was
/// passed in; that value is handed back here. Nothing is claimed of success.
#[verifier::external_body]
fn sender_send<T>(tx: &Sender<T>, value: T) -> (res: Result<(), T>)
    ensures
        res matches Err(back) ==> back == value,
{
    match tx.send(value) {
        Ok(()) => Ok(()),
        Err(err) => Err(err.0),
    }
}

/// Trusted: `std::sync::mpsc::Receiver::recv`. It blocks until a value
/// arrives or every sender is gone; `None` stands for the latter. Nothing is
/// claimed of the value.
#[verifier::external_body]
fn receiver_recv<T>(rx: &Receiver<T>) -> (res: Option<T>) {
    match rx.recv() {
        Ok(value) => Some(value),
        Err(_) => None,
    }
}

/// Trusted: `Clone::clone` of `std::sync::mpsc::Sender`, which gives one
/// more sender of the same channel. Nothing is claimed of it.
#[verifier::external_body]
fn sender_clone<T>(tx: &Sender<T>) -> (other: Sender<T>) {
    tx.clone()
}

/// The writing end of a channel.
#[verifier::reject_recursive_types(T)]
pub struct Outbox<T> {
    tx: Sender<T>,
    sent: Ghost<Seq<T>>,
}

impl<T> Outbox<T> {
    /// The values this end has handed to the channel, oldest first.
    pub closed spec fn sent(&self) -> Seq<T> {
        self.sent@
    }

    /// Wraps a sender that has not been written to through this end.
    pub fn new(tx: Sender<T>) -> (out: Self)
        ensures
            out.sent() == Seq::<T>::empty(),
    {
        Outbox { tx, sent: Ghost(Seq::empty()) }
    }

    /// One more writing end of the same channel, with a log of its own.
    pub fn fork(&self) -> (out: Self)
        ensures
            out.sent() == Seq::<T>::empty(),
    {
        Outbox { tx: sender_clone(&self.tx), sent: Ghost(Seq::empty()) }
    }

    /// Hands `value` to the channel. On failure the reader is gone, the
    /// value comes back, and the log is as it was.
    pub fn send(&mut self, value: T) -> (res: Result<(), T>)
        ensures
            res is Ok ==> final(self).sent() == old(self).sent().push(value),
            res matches Err(back) ==> back == value && final(self).sent() == old(self).sent(),
    {
        let res = sender_send(&self.tx, value);
        if res.is_ok() {
            self.sent = Ghost(self.sent@.push(value));
        }
        res
    }
}

/// The reading end of a channel, with a quota: the number of values it will
/// still deliver. An inbox whose quota is used up reads as closed, so every
/// loop that drains one comes to an end. With the largest quota an inbox is
/// as good as unbounded.
#[verifier::reject_recursive_types(T)]
pub struct Inbox<T> {
    rx: Receiver<T>,
    quota: u64,
    received: Ghost<Seq<T>>,
}

impl<T> Inbox<T> {
    /// The values this end has delivered, oldest first.
    pub closed spec fn received(&self) -> Seq<T> {
        self.received@
    }

    /// How many values this end will still deliver at most.
    pub closed spec fn quota(&self) -> nat {
        self.quota as nat
    }

    /// Wraps a receiver that has not been read through this end.
    pub fn new(rx: Receiver<T>, quota: u64) -> (out: Self)
        ensures
            out.received() == Seq::<T>::empty(),
            out.quota() == quota,
    {
        Inbox { rx, quota, received: Ghost(Seq::empty()) }
    }

    /// Waits for the next value. `None` means that the inbox is closed:
    /// every writer is gone, or the quota is used up.
    pub fn recv(&mut self) -> (res: Option<T>)
        ensures
            old(self).quota() == 0 ==> res is None,
            res matches Some(value) ==> {
                &&& final(self).received() == old(self).received().push(value)
                &&& final(self).quota() + 1 == old(self).quota()
            },
            res is None ==> {
                &&& final(self).received() == old(self).received()
                &&& final(self).quota() == old(self).quota()
            },
    {
        if self.quota == 0 {
            return None;
        }
        let arrived = receiver_recv(&self.rx);
        self.accept(arrived)
    }

    /// Books what the channel handed to an inbox that has quota left, and
    /// passes it on as it is: a value is logged and uses up one of the
    /// quota, and the news that the channel is closed changes nothing.
    fn accept(&mut self, arrived: Option<T>) -> (res: Option<T>)
        requires
            old(self).quota() > 0,
        ensures
            res == arrived,
            match arrived {
                Some(value) => {
                    &&& final(self).received() == old(self).received().push(value)
                    &&& final(self).quota() + 1 == old(self).quota()
                },
                None => {
                    &&& final(self).received() == old(self).received()
                    &&& final(self).quota() == old(self).quota()
                },
            },
    {
        if let Some(value) = &arrived {
            self.quota = self.quota - 1;
            self.received = Ghost(self.received@.push(*value));
        }
        arrived
    }
}

/// A fresh unbounded channel: its writing end, and its reading end with the
/// given quota.
pub fn channel<T>(quota: u64) -> (ends: (Outbox<T>, Inbox<T>))
    ensures
        ends.0.sent() == Seq::<T>::empty(),
        ends.1.received() == Seq::<T>::empty(),
        ends.1.quota() == quota,
{
    let (tx, rx) = open_channel();
    (Outbox::new(tx), Inbox::new(rx, quota))
}

} // verus!
