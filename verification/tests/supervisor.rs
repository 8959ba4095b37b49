use teatui::channel::channel;
use teatui::counter::Message;
use teatui::effects::EffectsError;
use teatui::events::{run, EventError};
use teatui::input::Event;
use teatui::supervisor::{
    advance, await_outcome, report, settle, wire, Actor, Command, Phase, RuntimeError, Wiring,
};
use teatui::update::UpdateError;
use teatui::view::ViewError;

fn drive(first: Option<Result<(), RuntimeError>>) -> Vec<Command> {
    let mut phase = Phase::Idle;
    let mut commands = Vec::new();
    loop {
        let (next, command) = advance(phase);
        phase = next;
        match command {
            Some(Command::AwaitOutcome) => {
                commands.push(Command::AwaitOutcome);
                phase = settle(phase, first);
            }
            Some(other) => commands.push(other),
            None => return commands,
        }
    }
}

#[test]
fn actors_start_in_a_fixed_order() {
    let commands = drive(Some(Ok(())));
    assert_eq!(
        commands[..6],
        [
            Command::AcquireTerminal,
            Command::Spawn(Actor::View),
            Command::Spawn(Actor::Update),
            Command::Spawn(Actor::Effects),
            Command::Spawn(Actor::Events),
            Command::AwaitOutcome,
        ]
    );
}

#[test]
fn terminal_is_restored_once_before_the_result() {
    for first in [
        Some(Ok(())),
        Some(Err(RuntimeError::InputRead)),
        Some(Err(RuntimeError::Render)),
        None,
    ] {
        let commands = drive(first);
        let restores = commands.iter().filter(|c| **c == Command::RestoreTerminal).count();
        assert_eq!(restores, 1);
        assert_eq!(commands.len(), 8);
        assert_eq!(commands[6], Command::RestoreTerminal);
        assert!(matches!(commands[7], Command::Finish(_)));
    }
}

#[test]
fn first_outcome_is_the_result() {
    assert_eq!(drive(Some(Ok(())))[7], Command::Finish(Ok(())));
    assert_eq!(
        drive(Some(Err(RuntimeError::ViewSend)))[7],
        Command::Finish(Err(RuntimeError::ViewSend))
    );
}

#[test]
fn no_outcome_at_all_is_a_failure() {
    assert_eq!(drive(None)[7], Command::Finish(Err(RuntimeError::GracefulShutdownUnavailable)));
}

#[test]
fn later_reports_are_ignored() {
    let settled = settle(Phase::Waiting, Some(Err(RuntimeError::Render)));
    assert_eq!(settled, Phase::Settled(Err(RuntimeError::Render)));
    assert_eq!(settle(settled, Some(Ok(()))), settled);
    assert_eq!(settle(Phase::Idle, Some(Ok(()))), Phase::Idle);
    assert_eq!(settle(Phase::Finished, None), Phase::Finished);
}

#[test]
fn waiting_and_finished_have_no_command() {
    assert_eq!(advance(Phase::Waiting), (Phase::Waiting, None));
    assert_eq!(advance(Phase::Finished), (Phase::Finished, None));
}

#[test]
fn failing_input_read_is_reported_and_terminal_restored() {
    let (mut tx, _rx) = channel::<Message>(u64::MAX);
    let read = || -> Result<Event, std::io::ErrorKind> { Err(std::io::ErrorKind::BrokenPipe) };
    let outcome = run(read, &mut tx, u64::MAX);
    let error = match outcome {
        Err(err) => err,
        Ok(()) => panic!("a failing read must end the event source"),
    };
    assert!(matches!(error, EventError::EventRead(std::io::ErrorKind::BrokenPipe)));
    let report = RuntimeError::from_events(&error);
    assert_eq!(report, RuntimeError::InputRead);

    let commands = drive(Some(Err(report)));
    assert_eq!(commands[7], Command::Finish(Err(RuntimeError::InputRead)));
    let restores = commands.iter().filter(|c| **c == Command::RestoreTerminal).count();
    assert_eq!(restores, 1);
}

#[test]
fn actor_failures_name_their_stage() {
    let view_down: UpdateError<u8, u8> = UpdateError::ViewSend(1);
    let effects_down: UpdateError<u8, u8> = UpdateError::EffectSend((1, 2));
    assert_eq!(RuntimeError::from_update(&view_down), RuntimeError::ViewSend);
    assert_eq!(RuntimeError::from_update(&effects_down), RuntimeError::EffectSend);
    assert_eq!(
        RuntimeError::from_effects(&EffectsError::MessageSend(3u8)),
        RuntimeError::MessageSend(Actor::Effects)
    );
    let send: EventError<u8, u8> = EventError::MessageSend(4);
    let read: EventError<u8, u8> = EventError::EventRead(5);
    assert_eq!(RuntimeError::from_events(&send), RuntimeError::MessageSend(Actor::Events));
    assert_eq!(RuntimeError::from_events(&read), RuntimeError::InputRead);
    assert_eq!(RuntimeError::from_view(&ViewError::Render(6u8)), RuntimeError::Render);
}

#[test]
fn failures_read_in_words() {
    assert_eq!(RuntimeError::Render.message(), "Failed to draw to the terminal");
    assert_eq!(RuntimeError::InputRead.message(), "Failed to read input event");
    assert_eq!(
        RuntimeError::ViewSend.message(),
        "Failed to send message to the view process"
    );
    assert_eq!(
        RuntimeError::EffectSend.message(),
        "Failed to send message to effects handler process"
    );
    assert_eq!(
        RuntimeError::MessageSend(Actor::Events).message(),
        "Failed to send message to update process"
    );
    assert_eq!(
        RuntimeError::MessageSend(Actor::Effects).message(),
        "Failed to send message to update process"
    );
    assert_eq!(RuntimeError::GracefulShutdownUnavailable.message(), "No process reported how it ended");
}

#[test]
fn actor_failures_read_in_words() {
    let view_down: UpdateError<u8, u8> = UpdateError::ViewSend(1);
    let effects_down: UpdateError<u8, u8> = UpdateError::EffectSend((1, 2));
    assert_eq!(view_down.message(), "Failed to send message to the view process");
    assert_eq!(
        effects_down.message(),
        "Failed to send message to effects handler process"
    );
    assert_eq!(
        EffectsError::MessageSend(3u8).message(),
        "Failed to send message to update process"
    );
    let send: EventError<u8, u8> = EventError::MessageSend(4);
    let read: EventError<u8, u8> = EventError::EventRead(5);
    assert_eq!(send.message(), "Failed to send message to update process");
    assert_eq!(read.message(), "Failed to read input event");
    assert_eq!(ViewError::Render(6u8).message(), "Failed to draw to the terminal");
    assert_eq!(RuntimeError::from_update(&view_down).message(), view_down.message());
    assert_eq!(RuntimeError::from_events(&read).message(), read.message());
}

#[test]
fn wiring_connects_the_actors() {
    let Wiring { mut view, mut update, mut effects, mut events, outcomes } =
        wire::<u32, char, bool>(u64::MAX);
    drop(outcomes);

    assert!(events.update.send('e').is_ok());
    assert!(effects.update.send('f').is_ok());
    assert_eq!(update.messages.recv(), Some('e'));
    assert_eq!(update.messages.recv(), Some('f'));

    assert!(update.view.send(7).is_ok());
    assert_eq!(view.states.recv(), Some(7));

    assert!(update.effects.send((7, true)).is_ok());
    assert_eq!(effects.requests.recv(), Some((7, true)));
}

#[test]
fn wiring_closes_when_the_writers_are_gone() {
    let Wiring { mut view, mut update, mut effects, events, outcomes } =
        wire::<u32, char, bool>(u64::MAX);
    drop(outcomes);
    let teatui::supervisor::UpdatePorts { mut messages, view: view_tx, effects: effects_tx, done } =
        update;
    drop(done);
    drop(events);
    assert!(effects.update.send('x').is_ok());
    let teatui::supervisor::EffectsPorts { mut requests, update: effects_update, done } = effects;
    drop(done);
    drop(effects_update);
    assert_eq!(messages.recv(), Some('x'));
    assert_eq!(messages.recv(), None);
    drop(view_tx);
    drop(effects_tx);
    assert_eq!(view.states.recv(), None);
    assert_eq!(requests.recv(), None);
}

#[test]
fn wiring_respects_the_quota() {
    let Wiring { mut update, mut events, .. } = wire::<u32, char, bool>(1);
    assert!(events.update.send('a').is_ok());
    assert!(events.update.send('b').is_ok());
    assert_eq!(update.messages.recv(), Some('a'));
    assert_eq!(update.messages.recv(), None);
}

#[test]
fn supervisor_settles_on_the_first_report() {
    let Wiring { mut view, mut update, mut outcomes, .. } = wire::<u32, char, bool>(u64::MAX);
    assert!(report(Err(RuntimeError::Render), &mut view.done));
    assert!(report(Ok(()), &mut update.done));
    let phase = await_outcome(Phase::Waiting, &mut outcomes);
    assert_eq!(phase, Phase::Settled(Err(RuntimeError::Render)));
    // A second wait, outside the waiting phase, takes nothing.
    assert_eq!(await_outcome(phase, &mut outcomes), phase);
    assert_eq!(outcomes.recv(), Some(Ok(())));
}

#[test]
fn supervisor_fails_when_no_actor_is_left_to_report() {
    let Wiring { view, update, effects, events, mut outcomes } = wire::<u32, char, bool>(u64::MAX);
    drop(view);
    drop(update);
    drop(effects);
    drop(events);
    assert_eq!(
        await_outcome(Phase::Waiting, &mut outcomes),
        Phase::Settled(Err(RuntimeError::GracefulShutdownUnavailable))
    );
}

#[test]
fn report_to_a_supervisor_that_is_gone_is_no_failure() {
    let Wiring { mut events, outcomes, .. } = wire::<u32, char, bool>(u64::MAX);
    drop(outcomes);
    assert!(!report(Ok(()), &mut events.done));
}

#[test]
fn forked_outbox_writes_to_the_same_channel() {
    let (mut first, mut rx) = channel::<u8>(u64::MAX);
    let mut second = first.fork();
    assert!(second.send(1).is_ok());
    assert!(first.send(2).is_ok());
    drop(first);
    assert_eq!(rx.recv(), Some(1));
    assert!(second.send(3).is_ok());
    drop(second);
    assert_eq!(rx.recv(), Some(2));
    assert_eq!(rx.recv(), Some(3));
    assert_eq!(rx.recv(), None);
}
