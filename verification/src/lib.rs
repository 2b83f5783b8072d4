//! A bridge between a chat platform's slash command and a text-completion
//! service.
//!
//! The crate is the bridge's core: every decision the bridge takes is a
//! function with a proved contract, and the network, the runtime and the
//! platform client stay with the caller, who performs what the core names
//! and reports back what happened.
//!
//! * [`dispatcher`] is the two-phase reply to an interaction: acknowledge at
//!   once, deliver the answer later.
//! * [`completion`] is the completion client: the request for a prompt and
//!   the classification of whatever comes back.
//! * [`commands`] holds the one command the bridge answers.
//! * [`config`] checks the process configuration and [`health`] answers the
//!   liveness probe.
//! * [`json`], [`headers`] and [`text`] are what the others stand on.

pub mod commands;
pub mod completion;
pub mod config;
pub mod dispatcher;
pub mod headers;
pub mod health;
pub mod json;
pub mod text;
