//! The supervisor: what the runtime does around its four actors.
//!
//! It takes the terminal, starts the actors in a fixed order, waits for the
//! first of them to end, gives the terminal back, and reports how that
//! actor ended. The supervisor here decides; whoever drives it performs each
//! command and comes back for the next.
use crate::channel::{channel, Inbox, Outbox};
use crate::effects::EffectsError;
use crate::events::EventError;
use crate::update::UpdateError;
use crate::view::ViewError;
use vstd::prelude::*;
use vstd::string::StringExecFns;

verus! {

/// The actors of the runtime.
#[derive(Debug, Clone, Copy, PartialEq, Eq, Structural)]
pub enum Actor {
    View,
    Update,
    Effects,
    Events,
}

/// Why the runtime ended in failure: which stage failed, and how.
#[derive(Debug, Clone, Copy, PartialEq, Eq, Structural)]
pub enum RuntimeError {
    /// The view could not draw a frame.
    Render,
    /// The event source could not read the input backend.
    InputRead,
    /// The update engine could not reach the view.
    ViewSend,
    /// The update engine could not reach the effects processor.
    EffectSend,
    /// The named actor could not reach the update engine.
    MessageSend(Actor),
    /// Every actor went away without reporting how it ended.
    GracefulShutdownUnavailable,
}

impl RuntimeError {
    /// The failure of the update engine, without what it could not send.
    pub fn from_update<M, Eff>(err: &UpdateError<M, Eff>) -> (out: RuntimeError)
        ensures
            out == (match err {
                UpdateError::EffectSend(_) => RuntimeError::EffectSend,
                UpdateError::ViewSend(_) => RuntimeError::ViewSend,
            }),
            out.text() == err.text(),
    {
        match err {
            UpdateError::EffectSend(_) => RuntimeError::EffectSend,
            UpdateError::ViewSend(_) => RuntimeError::ViewSend,
        }
    }

    /// The failure of the effects processor, without what it could not send.
    pub fn from_effects<M>(err: &EffectsError<M>) -> (out: RuntimeError)
        ensures
            out == RuntimeError::MessageSend(Actor::Effects),
            out.text() == err.text(),
    {
        RuntimeError::MessageSend(Actor::Effects)
    }

    /// The failure of the event source, without what it could not send or
    /// what the backend reported.
    pub fn from_events<M, E>(err: &EventError<M, E>) -> (out: RuntimeError)
        ensures
            out == (match err {
                EventError::MessageSend(_) => RuntimeError::MessageSend(Actor::Events),
                EventError::EventRead(_) => RuntimeError::InputRead,
            }),
            out.text() == err.text(),
    {
        match err {
            EventError::MessageSend(_) => RuntimeError::MessageSend(Actor::Events),
            EventError::EventRead(_) => RuntimeError::InputRead,
        }
    }

    /// The failure of the view, without what the renderer reported.
    pub fn from_view<E>(err: &ViewError<E>) -> (out: RuntimeError)
        ensures
            out == RuntimeError::Render,
            out.text() == err.text(),
    {
        RuntimeError::Render
    }

    /// The failure in words.
    pub open spec fn text(self) -> Seq<char> {
        match self {
            RuntimeError::Render => "Failed to draw to the terminal"@,
            RuntimeError::InputRead => "Failed to read input event"@,
            RuntimeError::ViewSend => "Failed to send message to the view process"@,
            RuntimeError::EffectSend => "Failed to send message to effects handler process"@,
            RuntimeError::MessageSend(_) => "Failed to send message to update process"@,
            RuntimeError::GracefulShutdownUnavailable => "No process reported how it ended"@,
        }
    }

    /// The failure in words.
    pub fn message(&self) -> (out: String)
        ensures
            out@ == self.text(),
    {
        match self {
            RuntimeError::Render => String::from_str("Failed to draw to the terminal"),
            RuntimeError::InputRead => String::from_str("Failed to read input event"),
            RuntimeError::ViewSend => String::from_str(
                "Failed to send message to the view process",
            ),
            RuntimeError::EffectSend => String::from_str(
                "Failed to send message to effects handler process",
            ),
            RuntimeError::MessageSend(_) => String::from_str(
                "Failed to send message to update process",
            ),
            RuntimeError::GracefulShutdownUnavailable => String::from_str("No process reported how it ended"),
        }
    }
}

/// What the supervisor asks its driver to do next.
#[derive(Debug, Clone, Copy, PartialEq, Eq)]
pub enum Command {
    /// Put the terminal into the mode the view draws in.
    AcquireTerminal,
    /// Start this actor on a thread of its own.
    Spawn(Actor),
    /// Wait until some actor reports how it ended, then call `settle`.
    AwaitOutcome,
    /// Put the terminal back as it was.
    RestoreTerminal,
    /// Return this as the result of the program.
    Finish(Result<(), RuntimeError>),
}

/// How far the supervisor has come.
#[derive(Debug, Clone, Copy, PartialEq, Eq)]
pub enum Phase {
    /// Nothing has been done.
    Idle,
    /// The terminal is taken; no actor runs.
    Acquired,
    /// The terminal is taken, and the actors up to this one run.
    Spawned(Actor),
    /// All actors run, and none has reported.
    Waiting,
    /// An actor has reported; the terminal is still taken.
    Settled(Result<(), RuntimeError>),
    /// The terminal has been given back.
    Restored(Result<(), RuntimeError>),
    /// The result has been handed out.
    Finished,
}

/// What the first report means for the program: an actor's own outcome, or
/// a failure where no actor reported at all.
pub open spec fn verdict(first: Option<Result<(), RuntimeError>>) -> Result<(), RuntimeError> {
    match first {
        Some(outcome) => outcome,
        None => Err(RuntimeError::GracefulShutdownUnavailable),
    }
}

/// The phase after `phase`, and the command that leads there. No command
/// means that the supervisor waits for a report, or is done.
pub open spec fn plan(phase: Phase) -> (Phase, Option<Command>) {
    match phase {
        Phase::Idle => (Phase::Acquired, Some(Command::AcquireTerminal)),
        Phase::Acquired => (Phase::Spawned(Actor::View), Some(Command::Spawn(Actor::View))),
        Phase::Spawned(Actor::View) => (
            Phase::Spawned(Actor::Update),
            Some(Command::Spawn(Actor::Update)),
        ),
        Phase::Spawned(Actor::Update) => (
            Phase::Spawned(Actor::Effects),
            Some(Command::Spawn(Actor::Effects)),
        ),
        Phase::Spawned(Actor::Effects) => (
            Phase::Spawned(Actor::Events),
            Some(Command::Spawn(Actor::Events)),
        ),
        Phase::Spawned(Actor::Events) => (Phase::Waiting, Some(Command::AwaitOutcome)),
        Phase::Waiting => (Phase::Waiting, None),
        Phase::Settled(outcome) => (Phase::Restored(outcome), Some(Command::RestoreTerminal)),
        Phase::Restored(outcome) => (Phase::Finished, Some(Command::Finish(outcome))),
        Phase::Finished => (Phase::Finished, None),
    }
}

/// The phase after a report arrives in `phase`. Only the first report
/// counts, and only while the supervisor waits for one.
pub open spec fn settled(phase: Phase, first: Option<Result<(), RuntimeError>>) -> Phase {
    match phase {
        Phase::Waiting => Phase::Settled(verdict(first)),
        _ => phase,
    }
}

/// Moves on from `phase`: the next phase and the command to perform.
pub fn advance(phase: Phase) -> (next: (Phase, Option<Command>))
    ensures
        next == plan(phase),
{
    match phase {
        Phase::Idle => (Phase::Acquired, Some(Command::AcquireTerminal)),
        Phase::Acquired => (Phase::Spawned(Actor::View), Some(Command::Spawn(Actor::View))),
        Phase::Spawned(actor) => match actor {
            Actor::View => (Phase::Spawned(Actor::Update), Some(Command::Spawn(Actor::Update))),
            Actor::Update => (
                Phase::Spawned(Actor::Effects),
                Some(Command::Spawn(Actor::Effects)),
            ),
            Actor::Effects => (Phase::Spawned(Actor::Events), Some(Command::Spawn(Actor::Events))),
            Actor::Events => (Phase::Waiting, Some(Command::AwaitOutcome)),
        },
        Phase::Waiting => (Phase::Waiting, None),
        Phase::Settled(outcome) => (Phase::Restored(outcome), Some(Command::RestoreTerminal)),
        Phase::Restored(outcome) => (Phase::Finished, Some(Command::Finish(outcome))),
        Phase::Finished => (Phase::Finished, None),
    }
}

/// Takes the report of the first actor that ended; `None` where the wait
/// itself failed because no actor was left to report.
pub fn settle(phase: Phase, first: Option<Result<(), RuntimeError>>) -> (next: Phase)
    ensures
        next == settled(phase, first),
{
    match phase {
        Phase::Waiting => match first {
            Some(outcome) => Phase::Settled(outcome),
            None => Phase::Settled(Err(RuntimeError::GracefulShutdownUnavailable)),
        },
        _ => phase,
    }
}

/// How many commands are still to come from `phase` before the supervisor
/// stops to wait, or is done.
pub open spec fn steps_left(phase: Phase) -> nat {
    match phase {
        Phase::Idle => 6,
        Phase::Acquired => 5,
        Phase::Spawned(Actor::View) => 4,
        Phase::Spawned(Actor::Update) => 3,
        Phase::Spawned(Actor::Effects) => 2,
        Phase::Spawned(Actor::Events) => 1,
        Phase::Waiting => 0,
        Phase::Settled(_) => 2,
        Phase::Restored(_) => 1,
        Phase::Finished => 0,
    }
}

/// The commands that the supervisor gives from `phase` on, until it stops
/// to wait for a report or is done.
pub open spec fn script(phase: Phase) -> Seq<Command>
    decreases steps_left(phase),
{
    match plan(phase).1 {
        Some(command) => seq![command] + script(plan(phase).0),
        None => Seq::empty(),
    }
}

/// How often `commands` gives the terminal back.
pub open spec fn restores(commands: Seq<Command>) -> nat
    decreases commands.len(),
{
    if commands.len() == 0 {
        0
    } else {
        restores(commands.drop_last()) + if commands.last() == Command::RestoreTerminal {
            1nat
        } else {
            0nat
        }
    }
}

/// The start is fixed: the terminal is taken first, then the view, the
/// update engine, the effects processor and the event source are started,
/// in this order, and then the supervisor waits.
pub proof fn script_of_the_start()
    ensures
        script(Phase::Idle) == seq![
            Command::AcquireTerminal,
            Command::Spawn(Actor::View),
            Command::Spawn(Actor::Update),
            Command::Spawn(Actor::Effects),
            Command::Spawn(Actor::Events),
            Command::AwaitOutcome,
        ],
        restores(script(Phase::Idle)) == 0,
{
    reveal_with_fuel(script, 8);
    reveal_with_fuel(restores, 8);
    let expected = seq![
        Command::AcquireTerminal,
        Command::Spawn(Actor::View),
        Command::Spawn(Actor::Update),
        Command::Spawn(Actor::Effects),
        Command::Spawn(Actor::Events),
        Command::AwaitOutcome,
    ];
    assert(script(Phase::Idle) =~= expected);
    assert(expected.drop_last() =~= expected.take(5));
    assert(expected.take(5).drop_last() =~= expected.take(4));
    assert(expected.take(4).drop_last() =~= expected.take(3));
    assert(expected.take(3).drop_last() =~= expected.take(2));
    assert(expected.take(2).drop_last() =~= expected.take(1));
    assert(expected.take(1).drop_last() =~= expected.take(0));
}

/// The end is fixed too: whatever the first report is, the supervisor
/// gives the terminal back exactly once, and only then hands out the result,
/// which is the first report's outcome, or a failure where there was no
/// report.
pub proof fn script_of_the_end(first: Option<Result<(), RuntimeError>>)
    ensures
        script(settled(Phase::Waiting, first)) == seq![
            Command::RestoreTerminal,
            Command::Finish(verdict(first)),
        ],
        restores(script(settled(Phase::Waiting, first))) == 1,
{
    reveal_with_fuel(script, 4);
    reveal_with_fuel(restores, 4);
    let expected = seq![Command::RestoreTerminal, Command::Finish(verdict(first))];
    assert(script(settled(Phase::Waiting, first)) =~= expected);
    assert(expected.drop_last() =~= seq![Command::RestoreTerminal]);
    assert(seq![Command::RestoreTerminal].drop_last() =~= Seq::<Command>::empty());
}

/// The channel ends of the view: where it takes states from, and where its
/// outcome goes.
#[verifier::reject_recursive_types(M)]
pub struct ViewPorts<M> {
    pub states: Inbox<M>,
    pub done: Outbox<Result<(), RuntimeError>>,
}

/// The channel ends of the update engine: where it takes messages from,
/// where it sends states and effects to, and where its outcome goes.
#[verifier::reject_recursive_types(M)]
#[verifier::reject_recursive_types(Msg)]
#[verifier::reject_recursive_types(Eff)]
pub struct UpdatePorts<M, Msg, Eff> {
    pub messages: Inbox<Msg>,
    pub view: Outbox<M>,
    pub effects: Outbox<(M, Eff)>,
    pub done: Outbox<Result<(), RuntimeError>>,
}

/// The channel ends of the effects processor: where it takes effects from,
/// where it sends messages to, and where its outcome goes.
#[verifier::reject_recursive_types(M)]
#[verifier::reject_recursive_types(Msg)]
#[verifier::reject_recursive_types(Eff)]
pub struct EffectsPorts<M, Msg, Eff> {
    pub requests: Inbox<(M, Eff)>,
    pub update: Outbox<Msg>,
    pub done: Outbox<Result<(), RuntimeError>>,
}

/// The channel ends of the event source: where it sends messages to, and
/// where its outcome goes.
#[verifier::reject_recursive_types(Msg)]
pub struct EventsPorts<Msg> {
    pub update: Outbox<Msg>,
    pub done: Outbox<Result<(), RuntimeError>>,
}

/// The channels of the runtime, wired as it needs them. The event source
/// and the effects processor both write to the inbox of the update engine;
/// the update engine writes to the inbox of the view and to the inbox of the
/// effects processor; and every actor can write its outcome to the inbox of
/// the supervisor.
#[verifier::reject_recursive_types(M)]
#[verifier::reject_recursive_types(Msg)]
#[verifier::reject_recursive_types(Eff)]
pub struct Wiring<M, Msg, Eff> {
    pub view: ViewPorts<M>,
    pub update: UpdatePorts<M, Msg, Eff>,
    pub effects: EffectsPorts<M, Msg, Eff>,
    pub events: EventsPorts<Msg>,
    /// Where the supervisor takes the outcomes of the actors from.
    pub outcomes: Inbox<Result<(), RuntimeError>>,
}

impl<M, Msg, Eff> Wiring<M, Msg, Eff> {
    /// Nothing has gone through any of the ends. Every inbox of an actor
    /// has the quota `quota`, and the supervisor can take one outcome from
    /// each actor.
    pub open spec fn fresh(self, quota: u64) -> bool {
        &&& self.view.states.received() == Seq::<M>::empty()
        &&& self.view.states.quota() == quota
        &&& self.view.done.sent() == Seq::<Result<(), RuntimeError>>::empty()
        &&& self.update.messages.received() == Seq::<Msg>::empty()
        &&& self.update.messages.quota() == quota
        &&& self.update.view.sent() == Seq::<M>::empty()
        &&& self.update.effects.sent() == Seq::<(M, Eff)>::empty()
        &&& self.update.done.sent() == Seq::<Result<(), RuntimeError>>::empty()
        &&& self.effects.requests.received() == Seq::<(M, Eff)>::empty()
        &&& self.effects.requests.quota() == quota
        &&& self.effects.update.sent() == Seq::<Msg>::empty()
        &&& self.effects.done.sent() == Seq::<Result<(), RuntimeError>>::empty()
        &&& self.events.update.sent() == Seq::<Msg>::empty()
        &&& self.events.done.sent() == Seq::<Result<(), RuntimeError>>::empty()
        &&& self.outcomes.received() == Seq::<Result<(), RuntimeError>>::empty()
        &&& self.outcomes.quota() == 4
    }
}

/// Makes the channels of the runtime and hands out their ends.
pub fn wire<M, Msg, Eff>(quota: u64) -> (wiring: Wiring<M, Msg, Eff>)
    ensures
        wiring.fresh(quota),
{
    let (done, outcomes) = channel::<Result<(), RuntimeError>>(4);
    let (events_tx, messages) = channel::<Msg>(quota);
    let (view_tx, states) = channel::<M>(quota);
    let (effects_tx, requests) = channel::<(M, Eff)>(quota);
    let effects_update_tx = events_tx.fork();
    Wiring {
        view: ViewPorts { states, done: done.fork() },
        update: UpdatePorts { messages, view: view_tx, effects: effects_tx, done: done.fork() },
        effects: EffectsPorts { requests, update: effects_update_tx, done: done.fork() },
        events: EventsPorts { update: events_tx, done },
        outcomes,
    }
}

/// Tells the supervisor how an actor ended, and says whether the outcome was
/// handed over. A supervisor that is gone takes none, and that is no failure.
pub fn report(outcome: Result<(), RuntimeError>, done: &mut Outbox<Result<(), RuntimeError>>) -> (delivered: bool)
    ensures
        delivered ==> final(done).sent() == old(done).sent().push(outcome),
        !delivered ==> final(done).sent() == old(done).sent(),
{
    done.send(outcome).is_ok()
}

/// Waits for the first actor to report, and settles on what it reports, or
/// on a failure where no actor is left to report. Outside the waiting phase
/// nothing is taken and nothing changes.
pub fn await_outcome(phase: Phase, outcomes: &mut Inbox<Result<(), RuntimeError>>) -> (next: Phase)
    ensures
        phase is Waiting ==> {
            ||| {
                &&& final(outcomes).received() == old(outcomes).received()
                &&& next == settled(phase, None)
            }
            ||| {
                &&& final(outcomes).received().len() == old(outcomes).received().len() + 1
                &&& final(outcomes).received().drop_last() == old(outcomes).received()
                &&& next == settled(phase, Some(final(outcomes).received().last()))
            }
        },
        !(phase is Waiting) ==> next == phase && final(outcomes).received() == old(
            outcomes,
        ).received(),
{
    match phase {
        Phase::Waiting => {
            let first = outcomes.recv();
            proof {
                if first is Some {
                    assert(outcomes.received().drop_last() =~= old(outcomes).received());
                }
            }
            settle(phase, first)
        },
        _ => phase,
    }
}

} // verus!
