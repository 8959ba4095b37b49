use teatui::counter::{decimal_string, run_effects, update, view, Message, Model};
use teatui::input::{Event, KeyCode, KeyEvent, KeyEventKind, CONTROL};
use teatui::update::Update;

fn press(code: KeyCode, modifiers: u8) -> Event {
    Event::Key(KeyEvent { code, modifiers, kind: KeyEventKind::Press })
}

fn next_counter(outcome: Update<Model, teatui::counter::Effect>) -> Option<u64> {
    match outcome {
        Update::Exit => None,
        Update::Next(model, None) => Some(model.counter),
        Update::Next(_, Some(_)) => panic!("the counter never asks for an effect"),
    }
}

#[test]
fn default_model_starts_at_zero() {
    assert_eq!(Model::default(), Model { counter: 0 });
}

#[test]
fn increment_adds_one() {
    assert_eq!(Model::increment_counter(Model { counter: 0 }).counter, 1);
    assert_eq!(Model::increment_counter(Model { counter: 41 }).counter, 42);
    assert_eq!(
        Model::increment_counter(Model { counter: u64::MAX - 1 }).counter,
        u64::MAX
    );
}

#[test]
fn decrement_subtracts_one() {
    assert_eq!(Model::decrement_counter(Model { counter: 1 }).counter, 0);
    assert_eq!(Model::decrement_counter(Model { counter: 42 }).counter, 41);
    assert_eq!(
        Model::decrement_counter(Model { counter: u64::MAX }).counter,
        u64::MAX - 1
    );
}

#[test]
fn decrement_below_zero_is_clamped() {
    assert_eq!(Model::decrement_counter(Model { counter: 0 }).counter, 0);
    let outcome = update(Model { counter: 0 }, Message::DecCounter);
    assert!(matches!(outcome, Update::Next(Model { counter: 0 }, None)));
}

#[test]
fn update_follows_the_message() {
    assert_eq!(next_counter(update(Model { counter: 7 }, Message::IncCounter)), Some(8));
    assert_eq!(next_counter(update(Model { counter: 7 }, Message::DecCounter)), Some(6));
    assert_eq!(next_counter(update(Model { counter: 7 }, Message::NoOp)), Some(7));
    assert_eq!(next_counter(update(Model { counter: 7 }, Message::Exit)), None);
}

#[test]
fn exit_keys_end_the_program() {
    assert_eq!(Message::from(press(KeyCode::Esc, 0)), Message::Exit);
    assert_eq!(Message::from(press(KeyCode::Char('q'), 0)), Message::Exit);
    assert_eq!(Message::from(press(KeyCode::Char('q'), CONTROL)), Message::Exit);
    assert_eq!(Message::from(press(KeyCode::Esc, 1)), Message::Exit);
    assert_eq!(Message::from(press(KeyCode::Char('c'), CONTROL)), Message::Exit);
    assert_eq!(Message::from(press(KeyCode::Char('C'), CONTROL)), Message::Exit);
}

#[test]
fn control_c_needs_control_alone() {
    assert_eq!(Message::from(press(KeyCode::Char('c'), 0)), Message::NoOp);
    assert_eq!(Message::from(press(KeyCode::Char('C'), 1)), Message::NoOp);
    assert_eq!(Message::from(press(KeyCode::Char('c'), CONTROL | 1)), Message::NoOp);
}

#[test]
fn arrows_count() {
    assert_eq!(Message::from(press(KeyCode::Right, 0)), Message::IncCounter);
    assert_eq!(Message::from(press(KeyCode::Left, 0)), Message::DecCounter);
    assert_eq!(Message::from(press(KeyCode::Right, CONTROL)), Message::IncCounter);
}

#[test]
fn everything_else_is_a_no_op() {
    assert_eq!(Message::from(Event::FocusGained), Message::NoOp);
    assert_eq!(Message::from(Event::FocusLost), Message::NoOp);
    assert_eq!(Message::from(Event::Mouse), Message::NoOp);
    assert_eq!(Message::from(Event::Paste), Message::NoOp);
    assert_eq!(Message::from(Event::Resize), Message::NoOp);
    assert_eq!(Message::from(press(KeyCode::Other, 0)), Message::NoOp);
    assert_eq!(Message::from(press(KeyCode::Char('x'), 0)), Message::NoOp);
    for kind in [KeyEventKind::Repeat, KeyEventKind::Release] {
        for code in [KeyCode::Esc, KeyCode::Right, KeyCode::Left, KeyCode::Char('q')] {
            let event = Event::Key(KeyEvent { code, modifiers: 0, kind });
            assert_eq!(Message::from(event), Message::NoOp);
        }
    }
}

#[test]
fn the_counter_has_no_effect_to_run() {
    // No value of the effect type exists, so the handler can only be named.
    let handler: fn(Model, teatui::counter::Effect) -> Option<Message> = run_effects;
    let _ = handler;
}

#[test]
fn numbers_are_written_in_decimal() {
    assert_eq!(decimal_string(0), "0");
    assert_eq!(decimal_string(7), "7");
    assert_eq!(decimal_string(10), "10");
    assert_eq!(decimal_string(909), "909");
    assert_eq!(decimal_string(1234567890), "1234567890");
    assert_eq!(decimal_string(u64::MAX), "18446744073709551615");
}

#[test]
fn view_shows_the_count() {
    assert_eq!(
        view(&Model { counter: 42 }),
        "Counter TUI!\n        \nCounter: 42\n        \nPress `Esc`, `Ctrl-C` or `q` to stop running."
    );
    assert_eq!(
        view(&Model::default()),
        "Counter TUI!\n        \nCounter: 0\n        \nPress `Esc`, `Ctrl-C` or `q` to stop running."
    );
}
