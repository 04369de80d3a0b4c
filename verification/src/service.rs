//! The execution service every runner implements: accept a program, run it
//! in a fresh host-isolated sandbox, capture its output, and answer
//! identity and liveness probes.
//!
//! The isolation primitive itself — starting the sandboxed process,
//! capturing its streams, enforcing the execution deadline — lives outside
//! the library; it hands in a [`SandboxOutcome`] of plain values, and
//! everything the service decides from that point on is verified here.
//! Each request is independent: no state is retained between calls.

use vstd::prelude::*;

verus! {

use vstd::string::StringExecFns;
use vstd::utf8::{valid_utf8, decode_utf8};
use crate::protocol::{DescribeResponse, Empty, ExecuteResponse, ExecuteStatus};
use crate::wire::bytes_to_string;

/// What the isolation primitive reports for one sandboxed run.
#[derive(Debug)]
pub enum SandboxOutcome {
    /// The program ran to completion before the deadline: its exit code and
    /// captured standard output and error streams, in full.
    Finished { exit_code: i32, stdout: Vec<u8>, stderr: Vec<u8> },
    /// The enforced deadline expired first and the sandbox was torn down,
    /// so a hostile program can hang neither the call nor the runner.
    TimedOut,
    /// The sandbox could not be started at all.
    StartFailed,
}

/// An execution request that produced no response: the two failures a
/// caller must tell apart, since they need different user-facing messages.
#[derive(Clone, Copy, Debug, PartialEq, Eq, Structural)]
pub enum ExecuteError {
    /// The sandbox could not start; the program was never run.
    SandboxStart,
    /// The program ran, but what it wrote was not valid text.
    OutputNotText,
}

/// The response owed for one execution request, determined entirely by
/// what the sandbox reported and the measured wall-clock duration.
pub open spec fn execute_result(
    outcome: SandboxOutcome,
    duration_ms: u64,
    r: Result<ExecuteResponse, ExecuteError>,
) -> bool {
    match outcome {
        SandboxOutcome::Finished { exit_code, stdout, stderr } => {
            if valid_utf8(stdout@) && valid_utf8(stderr@) {
                r matches Ok(resp) && resp.status == ExecuteStatus::Success && resp.retcode
                    == exit_code && resp.stdout@ == decode_utf8(stdout@) && resp.stderr@
                    == decode_utf8(stderr@) && resp.duration == duration_ms
            } else {
                r == Err::<ExecuteResponse, ExecuteError>(ExecuteError::OutputNotText)
            }
        },
        SandboxOutcome::TimedOut => r matches Ok(resp) && resp.status == ExecuteStatus::Timeout
            && resp.retcode == -1 && resp.stdout@ == Seq::<char>::empty() && resp.stderr@
            == Seq::<char>::empty() && resp.duration == duration_ms,
        SandboxOutcome::StartFailed => r == Err::<ExecuteResponse, ExecuteError>(
            ExecuteError::SandboxStart,
        ),
    }
}

/// One runner's execution service, backed by a sandbox primitive. The only
/// identity it carries is the host name it reports to identity probes,
/// fixed for the lifetime of the process.
#[derive(Debug)]
pub struct PodmanRunnerService {
    host: String,
}

impl PodmanRunnerService {
    /// The host name this runner reports.
    pub closed spec fn host_name(&self) -> Seq<char> {
        self.host@
    }

    /// A service that reports `host` to identity probes.
    pub fn new(host: String) -> (s: PodmanRunnerService)
        ensures
            s.host_name() == host@,
    {
        PodmanRunnerService { host }
    }

    /// Completes one execution request: folds what the sandbox reported,
    /// and the wall-clock duration measured around it, into the response
    /// owed to the caller. A run that finished with text output yields a
    /// success response carrying the program's real exit code and its
    /// captured streams; a run that hit the deadline yields a timeout
    /// response; the two ways of producing nothing usable are distinct
    /// errors.
    pub fn execute(&self, outcome: SandboxOutcome, duration_ms: u64) -> (r: Result<
        ExecuteResponse,
        ExecuteError,
    >)
        ensures
            execute_result(outcome, duration_ms, r),
    {
        match outcome {
            SandboxOutcome::Finished { exit_code, stdout, stderr } => {
                let decoded_out = bytes_to_string(stdout);
                let decoded_err = bytes_to_string(stderr);
                match (decoded_out, decoded_err) {
                    (Some(out), Some(err)) => Ok(
                        ExecuteResponse {
                            retcode: exit_code,
                            stdout: out,
                            stderr: err,
                            status: ExecuteStatus::Success,
                            duration: duration_ms,
                        },
                    ),
                    _ => Err(ExecuteError::OutputNotText),
                }
            },
            SandboxOutcome::TimedOut => Ok(
                ExecuteResponse {
                    retcode: -1,
                    stdout: String::new(),
                    stderr: String::new(),
                    status: ExecuteStatus::Timeout,
                    duration: duration_ms,
                },
            ),
            SandboxOutcome::StartFailed => Err(ExecuteError::SandboxStart),
        }
    }

    /// Identity probe: synchronous, no side effects. Always reports the
    /// host this service was built with.
    pub fn describe(&self) -> (r: DescribeResponse)
        ensures
            r.host@ == self.host_name(),
    {
        DescribeResponse { host: self.host.clone() }
    }

    /// Liveness probe: synchronous, no side effects, no data. The
    /// embedding answers it on its own task, independently of any Execute
    /// call in flight, so health checking is never starved by a slow
    /// sandboxed program.
    pub fn heartbeat(&self) -> (r: Empty)
        ensures
            r == (Empty {  }),
    {
        Empty {  }
    }
}

impl Default for PodmanRunnerService {
    /// A service reporting the loopback host, as a runner does when no
    /// identity was announced.
    fn default() -> (s: PodmanRunnerService)
        ensures
            s.host_name() == "localhost"@,
    {
        PodmanRunnerService { host: String::from_str("localhost") }
    }
}

/// Idempotent describe: the host in a describe response is a function of
/// the service value alone, so any two probes answered by one runner over
/// its lifetime report the same host.
pub proof fn lemma_describe_idempotent(
    s: &PodmanRunnerService,
    r1: &DescribeResponse,
    r2: &DescribeResponse,
)
    requires
        r1.host@ == s.host_name(),
        r2.host@ == s.host_name(),
    ensures
        r1.host@ == r2.host@,
{
}

} // verus!
