//! Core of a distributed code-execution cluster: a registry that hands out
//! node identities to runners as they join, a round-robin dispatcher that
//! picks a runner for each request, and the execution-service state machine
//! each runner implements (run a program in an isolated sandbox, capture its
//! output, answer identity and liveness probes).
//!
//! All I/O — the RPC transport, the sandbox itself, the chat front-end —
//! lives outside this crate; the functions here take and return plain values
//! and carry contracts for everything they decide.

pub mod api;
pub mod commands;
pub mod controller;
pub mod health;
pub mod protocol;
pub mod run;
pub mod service;
pub mod wire;

use vstd::prelude::*;

verus! {

use crate::controller::RunnerController;

/// Shared state handed to every front-end command invocation: the live
/// controller owning the runner pool.
pub struct Data {
    pub client_pool: RunnerController,
}

} // verus!
