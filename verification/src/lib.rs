//! A small unidirectional-data-flow runtime for terminal user interfaces.
//!
//! An application is a state, an update function that answers each message
//! with the next state and maybe an effect, a view function that turns a
//! state into a frame, and a handler that runs effects. The runtime is four
//! actors that talk through channels and share nothing:
//!
//! - the event source ([`events`]) reads raw input and sends messages;
//! - the update engine ([`update`]) owns the state, and publishes each new
//!   state to the view first and to the effects processor second;
//! - the effects processor ([`effects`]) runs each effect with the snapshot
//!   of the state that asked for it, and may send a message back;
//! - the view renderer ([`view`]) draws the initial state, then every state
//!   it is sent, in order.
//!
//! The [`supervisor`] says in which order they start and how the program
//! ends. The [`channel`] endpoints keep a ghost log of what went through
//! them, and the contracts of the actors are stated over these logs.
//! [`counter`] is a complete small application.
pub mod channel;
pub mod counter;
pub mod effects;
pub mod events;
pub mod input;
pub mod supervisor;
pub mod update;
pub mod view;
