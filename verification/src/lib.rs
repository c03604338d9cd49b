//! Core of a small SSH client: session-negotiation and command-execution
//! state machines, the chunked transfer engine with progress accounting,
//! and the remote-directory materialization algorithm, all verified.
//! Network and filesystem I/O live outside this crate; the modules here
//! hold every decision those loops make.

pub mod command;
pub mod materialize;
pub mod path;
pub mod session;
pub mod transfer;
