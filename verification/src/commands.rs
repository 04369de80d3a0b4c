//! Chat-command plumbing shared by the front-end: what kind a command is
//! and the parameter set a code submission can carry. The handlers
//! themselves — futures driven by the chat framework — live outside the
//! library.

use vstd::prelude::*;

verus! {

/// How a command is gated: open to everyone, behind an authorization
/// check, or the help menu.
#[derive(Clone, Copy, Debug, PartialEq, Eq, Structural)]
pub enum CommandKind {
    Base,
    Protected,
    Help,
}

/// Optional knobs a code submission may set; each one absent means the
/// playground default.
#[derive(Debug)]
pub struct Params {
    pub warn: Option<String>,
    pub channel: Option<String>,
    pub mode: Option<String>,
    pub edition: Option<String>,
}

impl Params {
    /// The default parameter set: nothing overridden.
    pub fn default() -> (p: Params)
        ensures
            p.warn is None,
            p.channel is None,
            p.mode is None,
            p.edition is None,
    {
        Params { warn: None, channel: None, mode: None, edition: None }
    }
}

} // verus!
