//! Dispatch named commands to the collaborator able to execute them.
//!
//! A command catalog maps logical command names to remote shell commands.
//! The remote execution core is modelled as two event-driven state machines:
//! one that establishes an authenticated session, and one that runs a single
//! command over an execution channel.  The transport itself (sockets,
//! cryptography) lives outside this crate; it reports what happened as
//! events, and every decision taken on those events is verified here.

pub mod channel;
pub mod client;
pub mod commands;
pub mod config;
pub mod errors;
pub mod runner;
pub mod session;
