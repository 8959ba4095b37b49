//! The effects processor: the actor that runs the side effects the update
//! function asks for.
//!
//! It takes pairs of a state snapshot and an effect from its inbox, hands
//! each to the effect handler, and forwards the handler's reply, if there is
//! one, to the update engine.
use crate::channel::{Inbox, Outbox};
use crate::update::{effect_keeps_its_state, effects, history, state_before, Round, Update};
use vstd::prelude::*;
use vstd::string::StringExecFns;

verus! {

/// Why the effects processor gave up.
#[derive(Debug)]
pub enum EffectsError<M> {
    /// The update engine is gone; the message that could not be sent.
    MessageSend(M),
}

impl<M> EffectsError<M> {
    /// The failure in words.
    pub open spec fn text(self) -> Seq<char> {
        "Failed to send message to update process"@
    }

    /// The failure in words.
    pub fn message(&self) -> (out: String)
        ensures
            out@ == self.text(),
    {
        String::from_str("Failed to send message to update process")
    }
}

/// The replies that are messages, in order.
pub open spec fn replies_sent<Msg>(replies: Seq<Option<Msg>>) -> Seq<Msg>
    decreases replies.len(),
{
    if replies.len() == 0 {
        Seq::empty()
    } else {
        let earlier = replies_sent(replies.drop_last());
        match replies.last() {
            Some(msg) => earlier.push(msg),
            None => earlier,
        }
    }
}

/// Each reply is one that the handler could give for the request at the
/// same place: for the very snapshot and effect that arrived together.
pub open spec fn handled<M, Msg, Eff, F: Fn(M, Eff) -> Option<Msg>>(
    effects_fn: F,
    requests: Seq<(M, Eff)>,
    replies: Seq<Option<Msg>>,
) -> bool {
    &&& replies.len() == requests.len()
    &&& forall|i: int|
        0 <= i < requests.len() ==> effects_fn.ensures(
            (requests[i].0, requests[i].1),
            #[trigger] replies[i],
        )
}

/// What a run of the processor has done: it handled every request it took,
/// in order, and forwarded every reply that was a message; a failed run
/// could not forward the last one.
pub open spec fn run_account<M, Msg, Eff, F: Fn(M, Eff) -> Option<Msg>>(
    effects_fn: F,
    requests: Seq<(M, Eff)>,
    replies: Seq<Option<Msg>>,
    sent: Seq<Msg>,
    res: Result<(), EffectsError<Msg>>,
) -> bool {
    &&& handled(effects_fn, requests, replies)
    &&& match res {
        Ok(()) => sent == replies_sent(replies),
        Err(EffectsError::MessageSend(msg)) => {
            &&& replies.len() > 0
            &&& replies.last() == Some(msg)
            &&& sent == replies_sent(replies.drop_last())
        },
    }
}

/// Forwards a handler's reply to the update engine: a message is sent, no
/// message sends nothing.
pub fn forward<Msg>(reply: Option<Msg>, tx: &mut Outbox<Msg>) -> (res: Result<
    (),
    EffectsError<Msg>,
>)
    ensures
        match res {
            Ok(()) => final(tx).sent() == (match reply {
                Some(msg) => old(tx).sent().push(msg),
                None => old(tx).sent(),
            }),
            Err(EffectsError::MessageSend(msg)) => {
                &&& reply == Some(msg)
                &&& final(tx).sent() == old(tx).sent()
            },
        },
{
    if let Some(msg) = reply {
        if let Err(back) = tx.send(msg) {
            return Err(EffectsError::MessageSend(back));
        }
    }
    Ok(())
}

/// One more request handled and its reply forwarded.
proof fn lemma_reply_forwarded<M, Msg, Eff, F: Fn(M, Eff) -> Option<Msg>>(
    effects_fn: F,
    requests: Seq<(M, Eff)>,
    replies: Seq<Option<Msg>>,
    request: (M, Eff),
    reply: Option<Msg>,
)
    requires
        handled(effects_fn, requests, replies),
        effects_fn.ensures((request.0, request.1), reply),
    ensures
        handled(effects_fn, requests.push(request), replies.push(reply)),
        replies.push(reply).drop_last() == replies,
        replies_sent(replies.push(reply)) == (match reply {
            Some(msg) => replies_sent(replies).push(msg),
            None => replies_sent(replies),
        }),
{
    assert(replies.push(reply).drop_last() =~= replies);
}

/// Runs the effects processor until its inbox closes or the update engine
/// is gone. Effects are handled one after the other, in the order in which
/// they arrive, each with the snapshot that came with it.
pub fn run<M, Msg, Eff, F>(effects_fn: F, rx: &mut Inbox<(M, Eff)>, tx: &mut Outbox<Msg>) -> (res:
    Result<(), EffectsError<Msg>>) where F: Fn(M, Eff) -> Option<Msg>
    requires
        forall|m: M, effect: Eff| effects_fn.requires((m, effect)),
    ensures
        old(rx).received().is_prefix_of(final(rx).received()),
        old(tx).sent().is_prefix_of(final(tx).sent()),
        final(rx).quota() + final(rx).received().len() == old(rx).quota() + old(
            rx,
        ).received().len(),
        exists|replies: Seq<Option<Msg>>|
            run_account(
                effects_fn,
                final(rx).received().skip(old(rx).received().len() as int),
                replies,
                final(tx).sent().skip(old(tx).sent().len() as int),
                res,
            ),
{
    let ghost received_base = rx.received();
    let ghost sent_base = tx.sent();
    let ghost mut requests = Seq::<(M, Eff)>::empty();
    let ghost mut replies = Seq::<Option<Msg>>::empty();
    let ghost mut sent = Seq::<Msg>::empty();
    let mut outcome: Result<(), EffectsError<Msg>> = Ok(());
    proof {
        assert(rx.received() =~= received_base + requests);
        assert(tx.sent() =~= sent_base + replies_sent(replies));
    }
    loop
        invariant_except_break
            forall|m: M, effect: Eff| effects_fn.requires((m, effect)),
            outcome is Ok,
            tx.sent() == sent_base + replies_sent(replies),
        invariant
            handled(effects_fn, requests, replies),
            rx.received() == received_base + requests,
            rx.quota() + rx.received().len() == old(rx).quota() + received_base.len(),
        ensures
            tx.sent() == sent_base + sent,
            run_account(effects_fn, requests, replies, sent, outcome),
        decreases rx.quota(),
    {
        let Some((model, effect)) = rx.recv() else {
            proof {
                sent = replies_sent(replies);
            }
            break ;
        };
        let reply = effects_fn(model, effect);
        proof {
            lemma_reply_forwarded(effects_fn, requests, replies, (model, effect), reply);
            assert(rx.received() =~= received_base + requests.push((model, effect)));
            sent = replies_sent(replies);
            requests = requests.push((model, effect));
            replies = replies.push(reply);
        }
        let forwarded = forward(reply, tx);
        if forwarded.is_err() {
            outcome = forwarded;
            break ;
        }
        proof {
            assert(tx.sent() =~= sent_base + replies_sent(replies));
        }
    }
    proof {
        assert(rx.received().skip(received_base.len() as int) =~= requests);
        assert(tx.sent().skip(sent_base.len() as int) =~= sent);
    }
    outcome
}

/// The handler sees the snapshot that came with the effect. In a run, the
/// reply at place `i` is the handler's answer to the `i`-th pair taken from
/// the inbox: to that effect, with the state that was sent beside it,
/// whatever the update engine has done since.
pub proof fn handler_sees_its_snapshot<M, Msg, Eff, F: Fn(M, Eff) -> Option<Msg>>(
    effects_fn: F,
    requests: Seq<(M, Eff)>,
    replies: Seq<Option<Msg>>,
    sent: Seq<Msg>,
    res: Result<(), EffectsError<Msg>>,
    i: int,
)
    requires
        run_account(effects_fn, requests, replies, sent, res),
        0 <= i < requests.len(),
    ensures
        i < replies.len(),
        effects_fn.ensures((requests[i].0, requests[i].1), replies[i]),
        sent.len() <= replies.len(),
{
    lemma_sent_is_short(replies);
    if res is Err {
        lemma_sent_is_short(replies.drop_last());
    }
}

/// No more messages are forwarded than replies were given.
proof fn lemma_sent_is_short<Msg>(replies: Seq<Option<Msg>>)
    ensures
        replies_sent(replies).len() <= replies.len(),
    decreases replies.len(),
{
    if replies.len() > 0 {
        lemma_sent_is_short(replies.drop_last());
    }
}

/// The handler runs with the state of the round that asked. Take the
/// rounds of the update engine, and a handler that is given exactly the
/// pairs that these rounds sent, in order. Then the reply at place `j` is
/// the handler's answer to an effect that the update function asked for in
/// some round `i`, together with a snapshot of the state that the update
/// function answered with in that same round.
pub proof fn handler_runs_with_the_state_of_its_round<
    M: Clone,
    Msg,
    Eff,
    F: Fn(M, Msg) -> Update<M, Eff>,
    EF: Fn(M, Eff) -> Option<Msg>,
>(
    update_fn: F,
    init: M,
    rounds: Seq<Round<M, Msg, Eff>>,
    effects_fn: EF,
    replies: Seq<Option<Msg>>,
    j: int,
) -> (i: int)
    requires
        history(update_fn, init, rounds),
        handled(effects_fn, effects(rounds), replies),
        0 <= j < replies.len(),
    ensures
        0 <= i < rounds.len(),
        update_fn.ensures(
            (state_before(init, rounds, i), rounds[i].msg),
            Update::Next(rounds[i].state, Some(effects(rounds)[j].1)),
        ),
        cloned(rounds[i].state, effects(rounds)[j].0),
        effects_fn.ensures((effects(rounds)[j].0, effects(rounds)[j].1), replies[j]),
{
    effect_keeps_its_state(update_fn, init, rounds, j)
}

} // verus!
