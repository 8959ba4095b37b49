//! The update engine: the actor that owns the state of the application.
//!
//! It takes messages from its inbox one by one, asks the update function for
//! the outcome, and publishes each new state: first to the view, then, if the
//! update asked for an effect, to the effects actor together with a snapshot
//! of that state.
use crate::channel::{Inbox, Outbox};
use vstd::prelude::*;
use vstd::string::StringExecFns;

verus! {

/// What the update function decides for one message.
pub enum Update<M, E> {
    /// Stop the program.
    Exit,
    /// Go on with a new state, and maybe run an effect.
    Next(M, Option<E>),
}

/// Why the update engine gave up.
#[derive(Debug)]
pub enum UpdateError<M, Eff> {
    /// The effects actor is gone; the pair that could not be sent.
    EffectSend((M, Eff)),
    /// The view is gone; the state that could not be sent.
    ViewSend(M),
}

impl<M, Eff> UpdateError<M, Eff> {
    /// The failure in words.
    pub open spec fn text(self) -> Seq<char> {
        match self {
            UpdateError::EffectSend(_) => "Failed to send message to effects handler process"@,
            UpdateError::ViewSend(_) => "Failed to send message to the view process"@,
        }
    }

    /// The failure in words.
    pub fn message(&self) -> (out: String)
        ensures
            out@ == self.text(),
    {
        match self {
            UpdateError::EffectSend(_) => String::from_str(
                "Failed to send message to effects handler process",
            ),
            UpdateError::ViewSend(_) => String::from_str(
                "Failed to send message to the view process",
            ),
        }
    }
}

/// One round of the engine: the message it took, the state the update
/// function answered with, the snapshot made of it for the view, and the
/// snapshot and effect meant for the effects actor.
pub struct Round<M, Msg, Eff> {
    pub msg: Msg,
    pub state: M,
    pub shown: M,
    pub effect: Option<(M, Eff)>,
}

/// The effect alone, without the snapshot that travels with it.
pub open spec fn bare<M, Eff>(effect: Option<(M, Eff)>) -> Option<Eff> {
    match effect {
        Some(pair) => Some(pair.1),
        None => None,
    }
}

/// The state the engine holds when round `i` begins.
pub open spec fn state_before<M, Msg, Eff>(
    init: M,
    rounds: Seq<Round<M, Msg, Eff>>,
    i: int,
) -> M {
    if i <= 0 {
        init
    } else {
        rounds[i - 1].state
    }
}

/// `round` is what the update function and `clone` allow, starting from
/// the state `before`.
pub open spec fn round_fits<M: Clone, Msg, Eff, F: Fn(M, Msg) -> Update<M, Eff>>(
    update_fn: F,
    before: M,
    round: Round<M, Msg, Eff>,
) -> bool {
    &&& update_fn.ensures((before, round.msg), Update::Next(round.state, bare(round.effect)))
    &&& cloned(round.state, round.shown)
    &&& round.effect matches Some(pair) ==> cloned(round.state, pair.0)
}

/// Every round starts from the state that the round before it ended with,
/// the first one from `init`.
pub open spec fn history<M: Clone, Msg, Eff, F: Fn(M, Msg) -> Update<M, Eff>>(
    update_fn: F,
    init: M,
    rounds: Seq<Round<M, Msg, Eff>>,
) -> bool {
    forall|i: int|
        0 <= i < rounds.len() ==> round_fits(
            update_fn,
            #[trigger] state_before(init, rounds, i),
            rounds[i],
        )
}

/// The messages the rounds took, in order.
pub open spec fn messages<M, Msg, Eff>(rounds: Seq<Round<M, Msg, Eff>>) -> Seq<Msg> {
    Seq::new(rounds.len(), |i: int| rounds[i].msg)
}

/// The snapshots the rounds made for the view, in order: one per round.
pub open spec fn views<M, Msg, Eff>(rounds: Seq<Round<M, Msg, Eff>>) -> Seq<M> {
    Seq::new(rounds.len(), |i: int| rounds[i].shown)
}

/// The pairs the rounds made for the effects actor, in order: one for each
/// round whose update asked for an effect.
pub open spec fn effects<M, Msg, Eff>(rounds: Seq<Round<M, Msg, Eff>>) -> Seq<(M, Eff)>
    decreases rounds.len(),
{
    if rounds.len() == 0 {
        Seq::empty()
    } else {
        let earlier = effects(rounds.drop_last());
        match rounds.last().effect {
            Some(pair) => earlier.push(pair),
            None => earlier,
        }
    }
}

/// What a run that got past its start has done, given the rounds it went
/// through: `received`, `shown` and `requested` are what it took from its
/// inbox and handed to the view and to the effects actor.
///
/// A successful run has published every round; it ended because the inbox
/// closed, or because the update function answered the last message with
/// `Exit`. A failed run has published every round but the last: there the
/// view was down and nothing was sent, or the view was served and the
/// effects actor was down.
pub open spec fn rounds_account<M: Clone, Msg, Eff, F: Fn(M, Msg) -> Update<M, Eff>>(
    update_fn: F,
    init: M,
    rounds: Seq<Round<M, Msg, Eff>>,
    received: Seq<Msg>,
    shown: Seq<M>,
    requested: Seq<(M, Eff)>,
    res: Result<(), UpdateError<M, Eff>>,
) -> bool {
    match res {
        Ok(()) => {
            &&& shown == views(rounds)
            &&& requested == effects(rounds)
            &&& {
                ||| received == messages(rounds)
                ||| {
                    &&& received.len() > 0
                    &&& received.drop_last() == messages(rounds)
                    &&& update_fn.ensures(
                        (state_before(init, rounds, rounds.len() as int), received.last()),
                        Update::Exit,
                    )
                }
            }
        },
        Err(UpdateError::ViewSend(state)) => {
            &&& rounds.len() > 0
            &&& received == messages(rounds)
            &&& state == rounds.last().shown
            &&& shown == views(rounds.drop_last())
            &&& requested == effects(rounds.drop_last())
        },
        Err(UpdateError::EffectSend(pair)) => {
            &&& rounds.len() > 0
            &&& received == messages(rounds)
            &&& rounds.last().effect == Some(pair)
            &&& shown == views(rounds)
            &&& requested == effects(rounds.drop_last())
        },
    }
}

/// What a whole run has done. An initial effect goes out first, with a
/// snapshot of the initial state; if that fails, the run ends there, having
/// taken no message and shown nothing. After that the rounds follow.
pub open spec fn run_account<M: Clone, Msg, Eff, F: Fn(M, Msg) -> Update<M, Eff>>(
    update_fn: F,
    init: M,
    initial_effect: Option<Eff>,
    rounds: Seq<Round<M, Msg, Eff>>,
    received: Seq<Msg>,
    shown: Seq<M>,
    requested: Seq<(M, Eff)>,
    res: Result<(), UpdateError<M, Eff>>,
) -> bool {
    &&& history(update_fn, init, rounds)
    &&& match initial_effect {
        Some(effect) => if requested.len() == 0 {
            &&& res matches Err(UpdateError::EffectSend(pair)) && pair.1 == effect && cloned(
                init,
                pair.0,
            )
            &&& rounds.len() == 0
            &&& received.len() == 0
            &&& shown.len() == 0
        } else {
            &&& requested[0].1 == effect
            &&& cloned(init, requested[0].0)
            &&& rounds_account(
                update_fn,
                init,
                rounds,
                received,
                shown,
                requested.skip(1),
                res,
            )
        },
        None => rounds_account(update_fn, init, rounds, received, shown, requested, res),
    }
}

/// `after` is `before` with one snapshot of `state` added at its end.
pub open spec fn snapshot_added<M: Clone>(before: Seq<M>, after: Seq<M>, state: M) -> bool {
    &&& after.len() == before.len() + 1
    &&& after.drop_last() == before
    &&& cloned(state, after.last())
}

/// `after` is `before` with `effect` added at its end, beside a snapshot of
/// `state`.
pub open spec fn request_added<M: Clone, Eff>(
    before: Seq<(M, Eff)>,
    after: Seq<(M, Eff)>,
    state: M,
    effect: Eff,
) -> bool {
    &&& after.len() == before.len() + 1
    &&& after.drop_last() == before
    &&& after.last().1 == effect
    &&& cloned(state, after.last().0)
}

/// What one call of `publish` does to the two logs, for each way it can
/// end: all went out; the view was down and nothing went out; the view was
/// served and the effects actor was down.
pub open spec fn publish_account<M: Clone, Eff>(
    new_model: M,
    effect: Option<Eff>,
    shown_before: Seq<M>,
    shown_after: Seq<M>,
    requested_before: Seq<(M, Eff)>,
    requested_after: Seq<(M, Eff)>,
    res: Result<(), UpdateError<M, Eff>>,
) -> bool {
    match res {
        Ok(()) => {
            &&& snapshot_added(shown_before, shown_after, new_model)
            &&& match effect {
                Some(e) => request_added(requested_before, requested_after, new_model, e),
                None => requested_after == requested_before,
            }
        },
        Err(UpdateError::ViewSend(state)) => {
            &&& cloned(new_model, state)
            &&& shown_after == shown_before
            &&& requested_after == requested_before
        },
        Err(UpdateError::EffectSend(pair)) => {
            &&& effect == Some(pair.1)
            &&& cloned(new_model, pair.0)
            &&& snapshot_added(shown_before, shown_after, new_model)
            &&& requested_after == requested_before
        },
    }
}

/// Publishes the outcome of one update: a snapshot of the new state goes to
/// the view, and only then the effect, if there is one, goes to the effects
/// actor with a snapshot of its own. When the view is down, nothing is sent
/// to the effects actor.
pub fn publish<M: Clone, Eff>(
    new_model: &M,
    effect: Option<Eff>,
    view_tx: &mut Outbox<M>,
    effects_tx: &mut Outbox<(M, Eff)>,
) -> (res: Result<(), UpdateError<M, Eff>>)
    ensures
        publish_account(
            *new_model,
            effect,
            old(view_tx).sent(),
            final(view_tx).sent(),
            old(effects_tx).sent(),
            final(effects_tx).sent(),
            res,
        ),
{
    if let Err(state) = view_tx.send(new_model.clone()) {
        return Err(UpdateError::ViewSend(state));
    }
    assert(view_tx.sent().drop_last() == old(view_tx).sent());
    if let Some(e) = effect {
        if let Err(pair) = effects_tx.send((new_model.clone(), e)) {
            return Err(UpdateError::EffectSend(pair));
        }
        assert(effects_tx.sent().drop_last() == old(effects_tx).sent());
    }
    Ok(())
}

/// Adding a round that fits at the end keeps the history sound and adds
/// that round's message, snapshot and request to what the rounds account
/// for.
proof fn lemma_round_added<M: Clone, Msg, Eff, F: Fn(M, Msg) -> Update<M, Eff>>(
    update_fn: F,
    init: M,
    rounds: Seq<Round<M, Msg, Eff>>,
    round: Round<M, Msg, Eff>,
)
    requires
        history(update_fn, init, rounds),
        round_fits(update_fn, state_before(init, rounds, rounds.len() as int), round),
    ensures
        history(update_fn, init, rounds.push(round)),
        rounds.push(round).drop_last() == rounds,
        messages(rounds.push(round)) == messages(rounds).push(round.msg),
        views(rounds.push(round)) == views(rounds).push(round.shown),
        effects(rounds.push(round)) == (match round.effect {
            Some(pair) => effects(rounds).push(pair),
            None => effects(rounds),
        }),
        state_before(init, rounds.push(round), rounds.len() as int + 1) == round.state,
{
    let longer = rounds.push(round);
    assert(longer.drop_last() =~= rounds);
    assert(messages(longer) =~= messages(rounds).push(round.msg));
    assert(views(longer) =~= views(rounds).push(round.shown));
    assert forall|i: int| 0 <= i < longer.len() implies round_fits(
        update_fn,
        #[trigger] state_before(init, longer, i),
        longer[i],
    ) by {
        if i < rounds.len() {
            assert(longer[i] == rounds[i]);
            assert(state_before(init, longer, i) == state_before(init, rounds, i));
        }
    }
}

/// The round that one call of `publish` has made, whether it went through
/// or not, read off the two logs as they are after the call.
spec fn round_made<M, Msg, Eff>(
    msg: Msg,
    state: M,
    effect: Option<Eff>,
    published: Result<(), UpdateError<M, Eff>>,
    shown_after: Seq<M>,
    requested_after: Seq<(M, Eff)>,
) -> Round<M, Msg, Eff> {
    match published {
        Ok(()) => Round {
            msg,
            state,
            shown: shown_after.last(),
            effect: match effect {
                Some(e) => Some(requested_after.last()),
                None => None,
            },
        },
        Err(UpdateError::ViewSend(snapshot)) => Round {
            msg,
            state,
            shown: snapshot,
            effect: match effect {
                Some(e) => Some((state, e)),
                None => None,
            },
        },
        Err(UpdateError::EffectSend(pair)) => Round {
            msg,
            state,
            shown: shown_after.last(),
            effect: Some(pair),
        },
    }
}

/// One more round, from the update function's answer through `publish`:
/// the logs, which accounted for `rounds` on top of `shown_base` and
/// `requested_base`, now account for the longer sequence, up to what a
/// failed `publish` left out.
proof fn lemma_round_published<M: Clone, Msg, Eff, F: Fn(M, Msg) -> Update<M, Eff>>(
    update_fn: F,
    init: M,
    rounds: Seq<Round<M, Msg, Eff>>,
    msg: Msg,
    new_model: M,
    effect: Option<Eff>,
    published: Result<(), UpdateError<M, Eff>>,
    shown_base: Seq<M>,
    shown_after: Seq<M>,
    requested_base: Seq<(M, Eff)>,
    requested_after: Seq<(M, Eff)>,
) -> (longer: Seq<Round<M, Msg, Eff>>)
    requires
        history(update_fn, init, rounds),
        update_fn.ensures(
            (state_before(init, rounds, rounds.len() as int), msg),
            Update::Next(new_model, effect),
        ),
        publish_account(
            new_model,
            effect,
            shown_base + views(rounds),
            shown_after,
            requested_base + effects(rounds),
            requested_after,
            published,
        ),
    ensures
        longer.len() == rounds.len() + 1,
        longer.drop_last() == rounds,
        history(update_fn, init, longer),
        messages(longer) == messages(rounds).push(msg),
        state_before(init, longer, longer.len() as int) == new_model,
        shown_after == shown_base + shown_part(rounds, longer, published),
        requested_after == requested_base + requested_part(rounds, longer, published),
        published is Err ==> rounds_account(
            update_fn,
            init,
            longer,
            messages(longer),
            shown_part(rounds, longer, published),
            requested_part(rounds, longer, published),
            published,
        ),
{
    let round = round_made(msg, new_model, effect, published, shown_after, requested_after);
    let longer = rounds.push(round);
    let shown_before = shown_base + views(rounds);
    let requested_before = requested_base + effects(rounds);
    assert(bare(round.effect) == effect);
    lemma_round_added(update_fn, init, rounds, round);
    if published is Ok {
        assert(shown_after =~= shown_before.push(round.shown));
        assert(shown_before.push(round.shown) =~= shown_base + views(rounds).push(round.shown));
        if effect is Some {
            let pair = round.effect->Some_0;
            assert(requested_after =~= requested_before.push(pair));
            assert(requested_before.push(pair) =~= requested_base + effects(rounds).push(pair));
        }
    } else if published->Err_0 is EffectSend {
        assert(shown_after =~= shown_before.push(round.shown));
        assert(shown_before.push(round.shown) =~= shown_base + views(rounds).push(round.shown));
    }
    longer
}

/// What the view got in the rounds up to a call of `publish`: nothing of
/// the last round when the view was down.
spec fn shown_part<M, Msg, Eff>(
    rounds: Seq<Round<M, Msg, Eff>>,
    longer: Seq<Round<M, Msg, Eff>>,
    published: Result<(), UpdateError<M, Eff>>,
) -> Seq<M> {
    match published {
        Err(UpdateError::ViewSend(_)) => views(rounds),
        _ => views(longer),
    }
}

/// What the effects actor got in the rounds up to a call of `publish`:
/// nothing of the last round when that call failed.
spec fn requested_part<M, Msg, Eff>(
    rounds: Seq<Round<M, Msg, Eff>>,
    longer: Seq<Round<M, Msg, Eff>>,
    published: Result<(), UpdateError<M, Eff>>,
) -> Seq<(M, Eff)> {
    match published {
        Ok(()) => effects(longer),
        Err(_) => effects(rounds),
    }
}

/// Sends the initial effect, if there is one, to the effects actor with a
/// snapshot of the initial state. This is the first thing the engine does,
/// before it takes any message.
pub fn announce<M: Clone, Eff>(
    model: &M,
    initial_effect: Option<Eff>,
    effects_tx: &mut Outbox<(M, Eff)>,
) -> (res: Result<(), UpdateError<M, Eff>>)
    ensures
        match res {
            Ok(()) => match initial_effect {
                Some(effect) => request_added(
                    old(effects_tx).sent(),
                    final(effects_tx).sent(),
                    *model,
                    effect,
                ),
                None => final(effects_tx).sent() == old(effects_tx).sent(),
            },
            Err(UpdateError::EffectSend(pair)) => {
                &&& initial_effect == Some(pair.1)
                &&& cloned(*model, pair.0)
                &&& final(effects_tx).sent() == old(effects_tx).sent()
            },
            Err(UpdateError::ViewSend(_)) => false,
        },
{
    if let Some(effect) = initial_effect {
        if let Err(pair) = effects_tx.send((model.clone(), effect)) {
            return Err(UpdateError::EffectSend(pair));
        }
        assert(effects_tx.sent().drop_last() == old(effects_tx).sent());
    }
    Ok(())
}

/// Runs the update engine until its inbox closes, the update function
/// answers `Exit`, or the view or the effects actor is gone.
///
/// Some sequence of rounds accounts for the whole run: for each message
/// taken, a state that the update function could answer with when given
/// the state of the round before; for each such state, a snapshot sent to
/// the view; for each effect asked for, one pair sent to the effects actor.
/// Nothing else is sent, nothing is left out, and nothing changes places.
pub fn run<M, Msg, Eff, F>(
    model: M,
    initial_effect: Option<Eff>,
    update_fn: F,
    rx: &mut Inbox<Msg>,
    view_tx: &mut Outbox<M>,
    effects_tx: &mut Outbox<(M, Eff)>,
) -> (res: Result<(), UpdateError<M, Eff>>) where M: Clone, F: Fn(M, Msg) -> Update<M, Eff>
    requires
        forall|m: M, msg: Msg| update_fn.requires((m, msg)),
    ensures
        old(rx).received().is_prefix_of(final(rx).received()),
        old(view_tx).sent().is_prefix_of(final(view_tx).sent()),
        old(effects_tx).sent().is_prefix_of(final(effects_tx).sent()),
        final(rx).quota() + final(rx).received().len() == old(rx).quota() + old(
            rx,
        ).received().len(),
        exists|rounds: Seq<Round<M, Msg, Eff>>|
            run_account(
                update_fn,
                model,
                initial_effect,
                rounds,
                final(rx).received().skip(old(rx).received().len() as int),
                final(view_tx).sent().skip(old(view_tx).sent().len() as int),
                final(effects_tx).sent().skip(old(effects_tx).sent().len() as int),
                res,
            ),
{
    let ghost init = model;
    let ghost received_base = rx.received();
    let ghost shown_base = view_tx.sent();
    let ghost mut rounds = Seq::<Round<M, Msg, Eff>>::empty();
    if let Err(err) = announce(&model, initial_effect, effects_tx) {
        proof {
            assert(rx.received().skip(received_base.len() as int) =~= Seq::empty());
            assert(view_tx.sent().skip(shown_base.len() as int) =~= Seq::empty());
            assert(effects_tx.sent().skip(effects_tx.sent().len() as int) =~= Seq::empty());
            assert(run_account(
                update_fn,
                init,
                initial_effect,
                rounds,
                Seq::<Msg>::empty(),
                Seq::<M>::empty(),
                Seq::<(M, Eff)>::empty(),
                Err(err),
            ));
        }
        return Err(err);
    }
    let ghost requested_base = effects_tx.sent();
    let ghost mut received = Seq::<Msg>::empty();
    let ghost mut shown = Seq::<M>::empty();
    let ghost mut requested = Seq::<(M, Eff)>::empty();
    proof {
        assert(rx.received() =~= received_base + messages(rounds));
        assert(view_tx.sent() =~= shown_base + views(rounds));
        assert(effects_tx.sent() =~= requested_base + effects(rounds));
    }
    let mut model = model;
    let mut outcome: Result<(), UpdateError<M, Eff>> = Ok(());
    loop
        invariant_except_break
            forall|m: M, msg: Msg| update_fn.requires((m, msg)),
            outcome is Ok,
            model == state_before(init, rounds, rounds.len() as int),
            rx.received() == received_base + messages(rounds),
            view_tx.sent() == shown_base + views(rounds),
            effects_tx.sent() == requested_base + effects(rounds),
        invariant
            history(update_fn, init, rounds),
            rx.quota() + rx.received().len() == old(rx).quota() + received_base.len(),
        ensures
            rx.received() == received_base + received,
            view_tx.sent() == shown_base + shown,
            effects_tx.sent() == requested_base + requested,
            rounds_account(update_fn, init, rounds, received, shown, requested, outcome),
        decreases rx.quota(),
    {
        let Some(msg) = rx.recv() else {
            proof {
                received = messages(rounds);
                shown = views(rounds);
                requested = effects(rounds);
            }
            break ;
        };
        let (new_model, effect) = match update_fn(model, msg) {
            Update::Exit => {
                proof {
                    received = messages(rounds).push(msg);
                    shown = views(rounds);
                    requested = effects(rounds);
                    assert(received.drop_last() =~= messages(rounds));
                    assert(rx.received() =~= received_base + received);
                }
                break ;
            },
            Update::Next(new_model, effect) => (new_model, effect),
        };
        let published = publish(&new_model, effect, view_tx, effects_tx);
        let ghost earlier = rounds;
        proof {
            rounds = lemma_round_published(
                update_fn,
                init,
                earlier,
                msg,
                new_model,
                effect,
                published,
                shown_base,
                view_tx.sent(),
                requested_base,
                effects_tx.sent(),
            );
            assert(rx.received() =~= received_base + messages(rounds));
        }
        if published.is_err() {
            proof {
                received = messages(rounds);
                shown = shown_part(earlier, rounds, published);
                requested = requested_part(earlier, rounds, published);
            }
            outcome = published;
            break ;
        }
        model = new_model;
    }
    proof {
        lemma_run_accounted(
            update_fn,
            init,
            initial_effect,
            rounds,
            received,
            shown,
            requested,
            outcome,
            old(effects_tx).sent(),
            requested_base,
        );
        assert(rx.received().skip(received_base.len() as int) =~= received);
        assert(view_tx.sent().skip(shown_base.len() as int) =~= shown);
    }
    outcome
}

/// Puts the start of a run and its rounds together: `requested_base` is the
/// log of the effects outbox once the initial effect, if any, has gone out.
proof fn lemma_run_accounted<M: Clone, Msg, Eff, F: Fn(M, Msg) -> Update<M, Eff>>(
    update_fn: F,
    init: M,
    initial_effect: Option<Eff>,
    rounds: Seq<Round<M, Msg, Eff>>,
    received: Seq<Msg>,
    shown: Seq<M>,
    requested: Seq<(M, Eff)>,
    res: Result<(), UpdateError<M, Eff>>,
    requested_old: Seq<(M, Eff)>,
    requested_base: Seq<(M, Eff)>,
)
    requires
        history(update_fn, init, rounds),
        rounds_account(update_fn, init, rounds, received, shown, requested, res),
        match initial_effect {
            Some(effect) => request_added(requested_old, requested_base, init, effect),
            None => requested_base == requested_old,
        },
    ensures
        requested_old.is_prefix_of(requested_base + requested),
        run_account(
            update_fn,
            init,
            initial_effect,
            rounds,
            received,
            shown,
            (requested_base + requested).skip(requested_old.len() as int),
            res,
        ),
{
    let all = (requested_base + requested).skip(requested_old.len() as int);
    if initial_effect is Some {
        assert(requested_base =~= requested_old.push(requested_base.last()));
        assert(all[0] == requested_base.last());
        assert(all.skip(1) =~= requested);
    } else {
        assert(all =~= requested);
    }
}

/// The update function has one answer for each state and message.
pub open spec fn deterministic<M, Msg, Eff, F: Fn(M, Msg) -> Update<M, Eff>>(update_fn: F) -> bool {
    forall|m: M, msg: Msg, a: Update<M, Eff>, b: Update<M, Eff>|
        update_fn.ensures((m, msg), a) && update_fn.ensures((m, msg), b) ==> a == b
}

/// A snapshot of a state is equal to that state.
pub open spec fn faithful_snapshots<M: Clone>() -> bool {
    forall|a: M, b: M| cloned(a, b) ==> a == b
}

/// The answer of the update function for a state and a message.
pub open spec fn answer<M, Msg, Eff, F: Fn(M, Msg) -> Update<M, Eff>>(
    update_fn: F,
    m: M,
    msg: Msg,
) -> Update<M, Eff> {
    choose|outcome: Update<M, Eff>| update_fn.ensures((m, msg), outcome)
}

/// The state reached by applying the update function to `msgs` one after
/// the other, starting from `init`; `None` once it has answered `Exit`.
pub open spec fn state_after<M, Msg, Eff, F: Fn(M, Msg) -> Update<M, Eff>>(
    update_fn: F,
    init: M,
    msgs: Seq<Msg>,
) -> Option<M>
    decreases msgs.len(),
{
    if msgs.len() == 0 {
        Some(init)
    } else {
        match state_after(update_fn, init, msgs.drop_last()) {
            Some(state) => match answer(update_fn, state, msgs.last()) {
                Update::Next(next, _) => Some(next),
                Update::Exit => None,
            },
            None => None,
        }
    }
}

/// With a deterministic update function, the state before round `i` is
/// the one reached by applying the update function to the first `i`
/// messages.
proof fn lemma_state_after<M: Clone, Msg, Eff, F: Fn(M, Msg) -> Update<M, Eff>>(
    update_fn: F,
    init: M,
    rounds: Seq<Round<M, Msg, Eff>>,
    i: int,
)
    requires
        history(update_fn, init, rounds),
        deterministic(update_fn),
        0 <= i <= rounds.len(),
    ensures
        state_after(update_fn, init, messages(rounds).take(i)) == Some(
            state_before(init, rounds, i),
        ),
    decreases i,
{
    let msgs = messages(rounds).take(i);
    if i > 0 {
        lemma_state_after(update_fn, init, rounds, i - 1);
        assert(msgs.drop_last() =~= messages(rounds).take(i - 1));
        assert(msgs.last() == rounds[i - 1].msg);
        let before = state_before(init, rounds, i - 1);
        let round = rounds[i - 1];
        assert(round_fits(update_fn, before, round));
        let given = Update::Next(round.state, bare(round.effect));
        assert(update_fn.ensures((before, round.msg), given));
        assert(answer(update_fn, before, round.msg) == given);
    }
}

/// In every run the messages received are those of the rounds, with at
/// most one more at the end: the one answered with `Exit`.
proof fn lemma_received<M: Clone, Msg, Eff, F: Fn(M, Msg) -> Update<M, Eff>>(
    update_fn: F,
    init: M,
    rounds: Seq<Round<M, Msg, Eff>>,
    received: Seq<Msg>,
    shown: Seq<M>,
    requested: Seq<(M, Eff)>,
    res: Result<(), UpdateError<M, Eff>>,
    m: int,
)
    requires
        rounds_account(update_fn, init, rounds, received, shown, requested, res),
        0 <= m <= rounds.len(),
    ensures
        rounds.len() <= received.len() <= rounds.len() + 1,
        shown.len() <= rounds.len(),
        received.take(m) == messages(rounds).take(m),
        received.len() > rounds.len() ==> res is Ok && received.drop_last() == messages(rounds),
{
    if received.len() > rounds.len() {
        assert(received.drop_last() =~= messages(rounds));
        assert(received.take(m) =~= received.drop_last().take(m));
    } else {
        assert(received =~= messages(rounds));
    }
}

/// The view sees what the update function produces. With a deterministic
/// update function and snapshots that equal their state, the states sent to
/// the view in a run are, in order and with none left out, the states
/// reached by applying the update function to the messages received: the
/// `i`-th state shown is the one reached after the first `i + 1` messages.
/// A successful run has shown a state for every message it received, but
/// for a last one that the update function answered with `Exit`.
pub proof fn view_follows_update<M: Clone, Msg, Eff, F: Fn(M, Msg) -> Update<M, Eff>>(
    update_fn: F,
    init: M,
    initial_effect: Option<Eff>,
    rounds: Seq<Round<M, Msg, Eff>>,
    received: Seq<Msg>,
    shown: Seq<M>,
    requested: Seq<(M, Eff)>,
    res: Result<(), UpdateError<M, Eff>>,
)
    requires
        run_account(update_fn, init, initial_effect, rounds, received, shown, requested, res),
        deterministic(update_fn),
        faithful_snapshots::<M>(),
    ensures
        shown.len() <= received.len(),
        forall|i: int|
            0 <= i < shown.len() ==> state_after(update_fn, init, received.take(i + 1)) == Some(
                #[trigger] shown[i],
            ),
        res is Ok ==> shown.len() == received.len() || (shown.len() + 1 == received.len()
            && state_after(update_fn, init, received) is None),
{
    if shown.len() == 0 && received.len() == 0 {
        return ;
    }
    let tail = if initial_effect is Some {
        requested.skip(1)
    } else {
        requested
    };
    assert(rounds_account(update_fn, init, rounds, received, shown, tail, res));
    assert forall|i: int| 0 <= i < shown.len() implies state_after(
        update_fn,
        init,
        received.take(i + 1),
    ) == Some(#[trigger] shown[i]) by {
        lemma_state_after(update_fn, init, rounds, i + 1);
        lemma_received(update_fn, init, rounds, received, shown, tail, res, i + 1);
        assert(round_fits(update_fn, state_before(init, rounds, i), rounds[i]));
        assert(shown[i] == rounds[i].shown);
    }
    if res is Ok && shown.len() != received.len() {
        let n = rounds.len() as int;
        lemma_state_after(update_fn, init, rounds, n);
        lemma_received(update_fn, init, rounds, received, shown, tail, res, n);
        assert(received.take(n) =~= received.drop_last());
        assert(answer(update_fn, state_before(init, rounds, n), received.last())
            == Update::<M, Eff>::Exit);
    }
}

/// `Exit` is final. With a deterministic update function, if the update
/// function answers the message at place `k` of those received with `Exit`,
/// then that message is the last one the run took, the run succeeded, and
/// what it sent is what the `k` rounds before it produced: `k` states to
/// the view, and their effects. Nothing follows.
pub proof fn exit_is_final<M: Clone, Msg, Eff, F: Fn(M, Msg) -> Update<M, Eff>>(
    update_fn: F,
    init: M,
    rounds: Seq<Round<M, Msg, Eff>>,
    received: Seq<Msg>,
    shown: Seq<M>,
    requested: Seq<(M, Eff)>,
    res: Result<(), UpdateError<M, Eff>>,
    k: int,
)
    requires
        history(update_fn, init, rounds),
        rounds_account(update_fn, init, rounds, received, shown, requested, res),
        deterministic(update_fn),
        0 <= k < received.len(),
        state_after(update_fn, init, received.take(k)) is Some,
        state_after(update_fn, init, received.take(k + 1)) is None,
    ensures
        received.len() == k + 1,
        res is Ok,
        rounds.len() == k,
        shown == views(rounds),
        requested == effects(rounds),
{
    let n = rounds.len() as int;
    lemma_received(update_fn, init, rounds, received, shown, requested, res, 0);
    if k < n {
        lemma_state_after(update_fn, init, rounds, k + 1);
        lemma_received(update_fn, init, rounds, received, shown, requested, res, k + 1);
    }
}

/// An effect keeps the state it was asked for with. Every pair sent to the
/// effects actor comes from one round: it holds the effect that the update
/// function asked for in that round, beside a snapshot of the state that
/// the update function answered with in that same round, and of no other.
pub proof fn effect_keeps_its_state<M: Clone, Msg, Eff, F: Fn(M, Msg) -> Update<M, Eff>>(
    update_fn: F,
    init: M,
    rounds: Seq<Round<M, Msg, Eff>>,
    j: int,
) -> (i: int)
    requires
        history(update_fn, init, rounds),
        0 <= j < effects(rounds).len(),
    ensures
        0 <= i < rounds.len(),
        rounds[i].effect == Some(effects(rounds)[j]),
        cloned(rounds[i].state, effects(rounds)[j].0),
        update_fn.ensures(
            (state_before(init, rounds, i), rounds[i].msg),
            Update::Next(rounds[i].state, Some(effects(rounds)[j].1)),
        ),
    decreases rounds.len(),
{
    let last = rounds.len() - 1;
    let earlier = rounds.drop_last();
    assert(round_fits(update_fn, state_before(init, rounds, last), rounds[last]));
    if rounds.last().effect is Some && j == effects(rounds).len() - 1 {
        last
    } else {
        assert forall|i: int| 0 <= i < earlier.len() implies round_fits(
            update_fn,
            #[trigger] state_before(init, earlier, i),
            earlier[i],
        ) by {
            assert(earlier[i] == rounds[i]);
            assert(state_before(init, earlier, i) == state_before(init, rounds, i));
        }
        let i = effect_keeps_its_state(update_fn, init, earlier, j);
        assert(earlier[i] == rounds[i]);
        assert(state_before(init, earlier, i) == state_before(init, rounds, i));
        i
    }
}

/// The initial effect comes first. Where there is one, it is the first
/// thing the run sends to the effects actor, beside a snapshot of the
/// initial state; and where it cannot be sent, the run fails without having
/// taken a single message.
pub proof fn initial_effect_leads<M: Clone, Msg, Eff, F: Fn(M, Msg) -> Update<M, Eff>>(
    update_fn: F,
    init: M,
    effect: Eff,
    rounds: Seq<Round<M, Msg, Eff>>,
    received: Seq<Msg>,
    shown: Seq<M>,
    requested: Seq<(M, Eff)>,
    res: Result<(), UpdateError<M, Eff>>,
)
    requires
        run_account(update_fn, init, Some(effect), rounds, received, shown, requested, res),
    ensures
        requested.len() > 0 ==> requested[0].1 == effect && cloned(init, requested[0].0),
        requested.len() == 0 ==> res is Err && received.len() == 0 && shown.len() == 0,
        received.len() > 0 ==> requested.len() > 0,
{
}

} // verus!
