//! A counter application: the smallest complete consumer of the runtime.
//!
//! The right arrow counts up, the left arrow counts down and stops at zero,
//! and `Esc`, `q` or `Ctrl-C` ends the program.
use crate::input::{Event, KeyCode, KeyEventKind, CONTROL};
use crate::update::Update;
use std::convert::Infallible;
use vstd::prelude::*;
use vstd::string::StringExecFns;
use vstd::std_specs::convert::FromSpecImpl;

verus! {

/// The state of the application.
#[derive(Debug, Clone, Copy, PartialEq, Eq, Structural)]
pub struct Model {
    pub counter: u64,
}

impl Model {
    /// The state with the counter one higher.
    pub fn increment_counter(model: Model) -> (next: Model)
        requires
            model.counter < u64::MAX,
        ensures
            next.counter == model.counter + 1,
    {
        Model { counter: model.counter + 1 }
    }

    /// The state with the counter one lower, and zero where it was zero.
    pub fn decrement_counter(model: Model) -> (next: Model)
        ensures
            next.counter == if model.counter == 0 {
                0
            } else {
                model.counter - 1
            },
    {
        let counter: u64 = if model.counter == 0 {
            0
        } else {
            model.counter - 1
        };
        Model { counter }
    }
}

impl Default for Model {
    /// The counter starts at zero.
    fn default() -> (model: Model)
        ensures
            model.counter == 0,
    {
        Model { counter: 0 }
    }
}

/// The side effects the application can ask for: none. No value of this
/// type can be made.
pub enum Effect {
    Never(Infallible),
}

/// The messages that change the state of the application.
#[derive(Debug, Clone, Copy, PartialEq, Eq, Structural)]
pub enum Message {
    IncCounter,
    DecCounter,
    Exit,
    NoOp,
}

/// The message that a raw input event stands for. Only key presses count:
/// `Esc` and `q` end the program whatever modifiers are held, the arrows
/// count, and `c` ends the program when control, and only control, is held.
/// Everything else is `NoOp`.
pub open spec fn message_of(event: Event) -> Message {
    match event {
        Event::Key(key) if key.kind == KeyEventKind::Press => {
            if key.code == KeyCode::Esc || key.code == KeyCode::Char('q') {
                Message::Exit
            } else if key.code == KeyCode::Right {
                Message::IncCounter
            } else if key.code == KeyCode::Left {
                Message::DecCounter
            } else if (key.code == KeyCode::Char('c') || key.code == KeyCode::Char('C'))
                && key.modifiers == CONTROL {
                Message::Exit
            } else {
                Message::NoOp
            }
        },
        _ => Message::NoOp,
    }
}

impl From<Event> for Message {
    fn from(value: Event) -> (msg: Message) {
        match value {
            Event::Key(key) => match key.kind {
                KeyEventKind::Press => match key.code {
                    KeyCode::Esc => Message::Exit,
                    KeyCode::Right => Message::IncCounter,
                    KeyCode::Left => Message::DecCounter,
                    KeyCode::Char(c) => {
                        if c == 'q' {
                            Message::Exit
                        } else if (c == 'c' || c == 'C') && key.modifiers == CONTROL {
                            Message::Exit
                        } else {
                            Message::NoOp
                        }
                    },
                    KeyCode::Other => Message::NoOp,
                },
                KeyEventKind::Repeat | KeyEventKind::Release => Message::NoOp,
            },
            Event::FocusGained | Event::FocusLost | Event::Mouse | Event::Paste | Event::Resize => {
                Message::NoOp
            },
        }
    }
}

impl FromSpecImpl<Event> for Message {
    open spec fn obeys_from_spec() -> bool {
        true
    }

    open spec fn from_spec(value: Event) -> Message {
        message_of(value)
    }
}

/// What the counter does with a message from the state `model`.
pub open spec fn outcome(model: Model, msg: Message) -> Update<Model, Effect> {
    match msg {
        Message::Exit => Update::Exit,
        Message::NoOp => Update::Next(model, None),
        Message::IncCounter => Update::Next(Model { counter: (model.counter + 1) as u64 }, None),
        Message::DecCounter => Update::Next(
            Model {
                counter: if model.counter == 0 {
                    0
                } else {
                    (model.counter - 1) as u64
                },
            },
            None,
        ),
    }
}

/// The update function of the counter: the next state for a message. It
/// never asks for an effect.
pub fn update(model: Model, msg: Message) -> (res: Update<Model, Effect>)
    requires
        msg == Message::IncCounter ==> model.counter < u64::MAX,
    ensures
        res == outcome(model, msg),
{
    match msg {
        Message::Exit => Update::Exit,
        Message::NoOp => Update::Next(model, None),
        Message::IncCounter => Update::Next(Model::increment_counter(model), None),
        Message::DecCounter => Update::Next(Model::decrement_counter(model), None),
    }
}

/// The effect handler of the counter. There is no effect to handle, so it
/// never has a message for the update engine.
pub fn run_effects(model: Model, effect: Effect) -> (reply: Option<Message>)
    ensures
        reply is None,
{
    None
}

/// The text of one decimal digit.
pub open spec fn digit_text(d: nat) -> Seq<char> {
    if d == 0 {
        "0"@
    } else if d == 1 {
        "1"@
    } else if d == 2 {
        "2"@
    } else if d == 3 {
        "3"@
    } else if d == 4 {
        "4"@
    } else if d == 5 {
        "5"@
    } else if d == 6 {
        "6"@
    } else if d == 7 {
        "7"@
    } else if d == 8 {
        "8"@
    } else {
        "9"@
    }
}

/// A number in decimal, without leading zeros.
pub open spec fn decimal(n: nat) -> Seq<char>
    decreases n,
{
    if n < 10 {
        digit_text(n)
    } else {
        decimal(n / 10) + digit_text(n % 10)
    }
}

/// What the screen of the counter says for a given count.
pub open spec fn caption_text(counter: nat) -> Seq<char> {
    "Counter TUI!\n        \nCounter: "@ + decimal(counter)
        + "\n        \nPress `Esc`, `Ctrl-C` or `q` to stop running."@
}

/// One decimal digit as text.
fn digit_str(d: u64) -> (text: &'static str)
    requires
        d < 10,
    ensures
        text@ == digit_text(d as nat),
{
    if d == 0 {
        "0"
    } else if d == 1 {
        "1"
    } else if d == 2 {
        "2"
    } else if d == 3 {
        "3"
    } else if d == 4 {
        "4"
    } else if d == 5 {
        "5"
    } else if d == 6 {
        "6"
    } else if d == 7 {
        "7"
    } else if d == 8 {
        "8"
    } else {
        "9"
    }
}

/// Writes a number in decimal.
pub fn decimal_string(n: u64) -> (text: String)
    ensures
        text@ == decimal(n as nat),
{
    let mut rest: u64 = n / 10;
    let mut text = String::from_str(digit_str(n % 10));
    while rest > 0
        invariant
            rest > 0 ==> decimal(n as nat) == decimal(rest as nat) + text@,
            rest == 0 ==> decimal(n as nat) == text@,
        decreases rest,
    {
        let longer = String::from_str(digit_str(rest % 10)).concat(text.as_str());
        proof {
            let digit = digit_text((rest % 10) as nat);
            if rest >= 10 {
                assert((decimal((rest / 10) as nat) + digit) + text@ =~= decimal(
                    (rest / 10) as nat,
                ) + longer@);
            }
        }
        text = longer;
        rest = rest / 10;
    }
    text
}

/// The view function of the counter. A frame is the text to put on the
/// screen: a heading, the count in decimal, and how to leave.
pub fn view(model: &Model) -> (text: String)
    ensures
        text@ == caption_text(model.counter as nat),
{
    let number = decimal_string(model.counter);
    String::from_str("Counter TUI!\n        \nCounter: ").concat(number.as_str()).concat(
        "\n        \nPress `Esc`, `Ctrl-C` or `q` to stop running.",
    )
}

} // verus!
