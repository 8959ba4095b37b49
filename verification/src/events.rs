//! The event source: the actor that turns raw input into messages.
//!
//! It reads one raw event at a time, converts it into a message, and sends
//! the message to the update engine. It keeps no state, and it stops at the
//! first read or send that fails.
use crate::channel::Outbox;
use vstd::prelude::*;
use vstd::string::StringExecFns;

verus! {

/// Why the event source gave up.
#[derive(Debug)]
pub enum EventError<M, E> {
    /// The update engine is gone; the message that could not be sent.
    MessageSend(M),
    /// The input backend could not be read; its own error.
    EventRead(E),
}

impl<M, E> EventError<M, E> {
    /// The failure in words.
    pub open spec fn text(self) -> Seq<char> {
        match self {
            EventError::MessageSend(_) => "Failed to send message to update process"@,
            EventError::EventRead(_) => "Failed to read input event"@,
        }
    }

    /// The failure in words.
    pub fn message(&self) -> (out: String)
        ensures
            out@ == self.text(),
    {
        match self {
            EventError::MessageSend(_) => String::from_str(
                "Failed to send message to update process",
            ),
            EventError::EventRead(_) => String::from_str("Failed to read input event"),
        }
    }
}

/// `msg` is what the conversion from raw events gives for `event`.
pub open spec fn converted<Ev, M: From<Ev>>(event: Ev, msg: M) -> bool {
    call_ensures(M::from, (event,), msg)
}

/// Passes on the outcome of one read: an event is converted and sent as a
/// message, a failure is reported as it is.
pub fn relay<Ev, M: From<Ev>, E>(read: Result<Ev, E>, tx: &mut Outbox<M>) -> (res: Result<
    (),
    EventError<M, E>,
>)
    ensures
        match res {
            Ok(()) => {
                &&& read is Ok
                &&& final(tx).sent().len() == old(tx).sent().len() + 1
                &&& final(tx).sent().drop_last() == old(tx).sent()
                &&& converted(read->Ok_0, final(tx).sent().last())
            },
            Err(EventError::MessageSend(msg)) => {
                &&& read is Ok
                &&& converted(read->Ok_0, msg)
                &&& final(tx).sent() == old(tx).sent()
            },
            Err(EventError::EventRead(err)) => {
                &&& read == Err::<Ev, E>(err)
                &&& final(tx).sent() == old(tx).sent()
            },
        },
{
    match read {
        Ok(event) => {
            let msg = M::from(event);
            match tx.send(msg) {
                Ok(()) => {
                    assert(tx.sent().drop_last() == old(tx).sent());
                    Ok(())
                },
                Err(back) => Err(EventError::MessageSend(back)),
            }
        },
        Err(err) => Err(EventError::EventRead(err)),
    }
}

/// What a run of the event source has done, given the events it read: it
/// sent one message for each, in order, and each message is the conversion
/// of its event. A successful run made all its rounds; a failed one stopped
/// at a read that failed, or could not send the message of its last event.
pub open spec fn run_account<Ev, M: From<Ev>, E, R: Fn() -> Result<Ev, E>>(
    read_fn: R,
    events: Seq<Ev>,
    sent: Seq<M>,
    limit: u64,
    res: Result<(), EventError<M, E>>,
) -> bool {
    &&& sent.len() <= events.len() <= limit
    &&& forall|i: int|
        0 <= i < events.len() ==> read_fn.ensures((), Ok::<Ev, E>(#[trigger] events[i]))
    &&& forall|i: int| 0 <= i < sent.len() ==> converted(events[i], #[trigger] sent[i])
    &&& match res {
        Ok(()) => sent.len() == limit,
        Err(EventError::MessageSend(msg)) => {
            &&& events.len() == sent.len() + 1
            &&& converted(events.last(), msg)
        },
        Err(EventError::EventRead(err)) => {
            &&& events.len() == sent.len()
            &&& sent.len() < limit
            &&& read_fn.ensures((), Err::<Ev, E>(err))
        },
    }
}

/// Runs the event source for at most `limit` rounds of reading, converting
/// and sending. It returns early, with the error, when a read or a send
/// fails.
pub fn run<Ev, M, E, R>(read_fn: R, tx: &mut Outbox<M>, limit: u64) -> (res: Result<
    (),
    EventError<M, E>,
>) where M: From<Ev>, R: Fn() -> Result<Ev, E>
    requires
        read_fn.requires(()),
    ensures
        old(tx).sent().is_prefix_of(final(tx).sent()),
        exists|events: Seq<Ev>|
            run_account(
                read_fn,
                events,
                final(tx).sent().skip(old(tx).sent().len() as int),
                limit,
                res,
            ),
{
    let ghost sent_base = tx.sent();
    let ghost mut events = Seq::<Ev>::empty();
    let ghost mut sent = Seq::<M>::empty();
    let mut rounds: u64 = 0;
    proof {
        assert(tx.sent() =~= sent_base + sent);
    }
    while rounds < limit
        invariant
            read_fn.requires(()),
            sent_base == old(tx).sent(),
            rounds <= limit,
            events.len() == rounds,
            sent.len() == rounds,
            tx.sent() == sent_base + sent,
            forall|i: int|
                0 <= i < events.len() ==> read_fn.ensures((), Ok::<Ev, E>(#[trigger] events[i])),
            forall|i: int| 0 <= i < sent.len() ==> converted(events[i], #[trigger] sent[i]),
        decreases limit - rounds,
    {
        let read = read_fn();
        let ghost before = tx.sent();
        let relayed = relay(read, tx);
        proof {
            if read is Ok {
                events = events.push(read->Ok_0);
            }
            if relayed is Ok {
                assert(tx.sent() =~= before.push(tx.sent().last()));
                assert(tx.sent() =~= sent_base + sent.push(tx.sent().last()));
                sent = sent.push(tx.sent().last());
            }
            assert(tx.sent().skip(sent_base.len() as int) =~= sent);
        }
        if relayed.is_err() {
            proof {
                assert(run_account(read_fn, events, sent, limit, relayed));
            }
            return relayed;
        }
        rounds = rounds + 1;
    }
    proof {
        assert(tx.sent().skip(sent_base.len() as int) =~= sent);
        assert(run_account(read_fn, events, sent, limit, Ok::<(), EventError<M, E>>(())));
    }
    Ok(())
}

} // verus!
