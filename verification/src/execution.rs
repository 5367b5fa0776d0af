//! Launching commands.
use vstd::prelude::*;

use crate::strings::concatenate;

verus! {

/// How running a command went.
#[derive(Debug, Clone)]
pub enum ExecutionResult {
    Succeeded,
    Failed(String),
    Output(String),
}

/// The mathematical value of an [`ExecutionResult`].
pub enum ExecutionView {
    Succeeded,
    Failed(Seq<char>),
    Output(Seq<char>),
}

impl View for ExecutionResult {
    type V = ExecutionView;

    open spec fn view(&self) -> ExecutionView {
        match self {
            ExecutionResult::Succeeded => ExecutionView::Succeeded,
            ExecutionResult::Failed(m) => ExecutionView::Failed(m@),
            ExecutionResult::Output(o) => ExecutionView::Output(o@),
        }
    }
}

/// The program that runs a launched command line.
pub open spec fn launch_shell() -> Seq<char> {
    "bash"@
}

/// The shell that launches commands.
pub fn shell() -> (r: String)
    ensures
        r@ == launch_shell(),
{
    "bash".to_owned()
}

/// The outcome of launching `cmd`: success where the process started, else a
/// failure that names the command and the reason the process did not start.
pub fn launch_outcome(cmd: &str, spawn_error: Option<&str>) -> (r: ExecutionResult)
    ensures
        match spawn_error {
            None => r@ == ExecutionView::Succeeded,
            Some(reason) => r@ == ExecutionView::Failed(
                "failed to run command "@ + cmd@ + ": "@ + reason@,
            ),
        },
{
    match spawn_error {
        None => ExecutionResult::Succeeded,
        Some(reason) => {
            let a = concatenate("failed to run command ", cmd);
            let b = concatenate(a.as_str(), ": ");
            ExecutionResult::Failed(concatenate(b.as_str(), reason))
        },
    }
}

} // verus!
