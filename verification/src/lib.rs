//! A multi-room message relay: the session and room state machine, the
//! message dispatcher, the command interpreter and the liveness rules.
//!
//! The library decides; it performs no I/O. Every handler maps the current
//! state and one event to the next state and the deliveries to perform, and
//! its contract says which: exactly, but for the ids that the relay draws
//! at random and, where a handler reads the clock itself, the time.
//!
//! - [`models`]: envelopes, sessions, rooms and their mathematical values.
//! - [`registry`]: the registry of sessions with the room index over it.
//! - [`invariants`]: what keeps registry and room index consistent.
//! - [`delivery`]: deliveries, and the plans that contracts hold them to.
//! - [`handlers`]: the dispatcher, the room switch and the teardown.
//! - [`commands`]: the command interpreter.
//! - [`liveness`]: admission of new connections and the liveness check.
//! - [`connection`]: one round of a connection's task, event by event.
//! - [`laws`]: what holds of the protocol as a whole.
//! - [`stamp`]: the clock and the ids.
//! - [`text`]: numbers, lists and words as text.
//! - [`utils`]: helpers for clients of the relay.

pub mod commands;
pub mod connection;
pub mod delivery;
pub mod handlers;
pub mod invariants;
pub mod laws;
pub mod liveness;
pub mod models;
pub mod registry;
pub mod stamp;
pub mod text;
pub mod utils;
