//! Session types as values: protocols, typing contexts, the typing rules of
//! the session combinators, the check that each message on a channel fits
//! its protocol, and the decisions that run a shared session.
pub mod protocol;
pub mod context;
pub mod action;
pub mod session;
pub mod shared;
pub mod server;
pub mod monitor;
pub mod laws;
