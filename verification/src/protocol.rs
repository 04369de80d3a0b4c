//! The messages of the cluster's RPC protocol, as plain values.
//!
//! Four operations are exposed by a runner — `Execute`, `Describe`,
//! `Heartbeat` — and one by the controller — `Register`. The transport that
//! carries these messages lives outside the library; everything the cluster
//! logic reads or writes of them is here.

use vstd::prelude::*;

verus! {

/// The runtime a submitted program targets. A single compiled-language
/// runtime is exercised end to end today; the enumeration exists so that
/// more can be added without changing the wire contract.
#[derive(Clone, Copy, Debug, PartialEq, Eq, Structural)]
pub enum Language {
    LangRust,
}

/// How an execution request ended.
#[derive(Clone, Copy, Debug, PartialEq, Eq, Structural)]
pub enum ExecuteStatus {
    /// The sandbox ran the program to completion and its output was captured.
    Success,
    /// The enforced execution deadline expired before the program finished.
    Timeout,
    /// The sandbox failed in a way that produced no usable result.
    Error,
}

/// A request to run one program in a fresh sandbox.
#[derive(Debug)]
pub struct ExecuteRequest {
    pub language: Language,
    pub program: String,
    /// Reserved for future use; always empty today.
    pub args: String,
}

/// What one execution produced: the captured streams, the program's exit
/// code, and the wall-clock duration in milliseconds.
#[derive(Debug)]
pub struct ExecuteResponse {
    pub retcode: i32,
    pub stdout: String,
    pub stderr: String,
    pub status: ExecuteStatus,
    pub duration: u64,
}

/// A runner announcing the address it can be reached at.
#[derive(Debug)]
pub struct RegisterRequest {
    pub host: String,
    pub port: String,
}

/// The identity the controller assigned to a freshly registered runner.
#[derive(Clone, Copy, Debug, PartialEq, Eq, Structural)]
pub struct RegisterResponse {
    pub nodeid: i32,
}

/// A runner's answer to an identity probe.
#[derive(Debug)]
pub struct DescribeResponse {
    pub host: String,
}

/// The empty message: the heartbeat request and reply carry no data.
#[derive(Clone, Copy, Debug, PartialEq, Eq, Structural)]
pub struct Empty {}

} // verus!
