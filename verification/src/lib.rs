//! Roast: host a program (a game server, for instance) behind a small
//! authenticated web console.  This crate holds the logic: the session
//! store, the console state machine, the log stream and the page decisions.

pub mod auth;
pub mod command;
pub mod config;
pub mod text;
pub mod token;
pub mod website;
