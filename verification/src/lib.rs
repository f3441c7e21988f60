//! Coordinator of a turn-based multiplayer card game.
//!
//! One coordinator holds every session of a process. A session seats up to
//! ten participants on distinct squares of the board, counts down, and then
//! runs turn after turn: everyone still in the game is offered three cards,
//! plays one, and reports when its animations are over; participants are
//! voted out by the others or dropped when their connection goes away; the
//! session ends when one participant is left or no person is connected.
//!
//! The coordinator is a state machine. A [`server::GameServer`] takes one
//! [`actions::Command`] at a time and hands back an [`actions::Outcome`]: the
//! notices to send, the commands that follow, and the timers to start or
//! stop. Whoever owns the coordinator carries these out and feeds the
//! commands back in. Nothing in here waits, sends or reads a clock.
//!
//! What each command does is written down as mathematics in [`rules`] (one
//! session) and [`registry`] (all sessions); the steps in [`session`] and the
//! handlers in [`server`] are proved to do exactly that, and [`laws`] proves
//! what follows for every sequence of commands. The only code taken on trust
//! is the random source in [`random`].

pub mod config;
pub mod random;
pub mod text;
pub mod models;
pub mod messages;
pub mod actions;
pub mod rules;
pub mod session;
pub mod registry;
pub mod server;
pub mod route;
pub mod laws;
