//! Process launcher semantics: how the outcome of spawning and awaiting
//! the next process in the chain is turned into this process's own result.
//!
//! The launcher itself — creating the subprocess with the merged
//! environment, awaiting it, killing it if this process dies — is an OS
//! concern outside the library.  What is verified here is the decision it
//! feeds: failure to start and unsuccessful exit are distinct errors, and a
//! failure anywhere in the chain reaches every ancestor as a non-zero exit.

use vstd::prelude::*;

verus! {

/// How a spawned process ended.
#[derive(Clone, Copy, Debug, PartialEq, Eq, Structural)]
pub enum ChildStatus {
    /// It exited with this code.
    Code(i32),
    /// It was terminated without an exit code.
    Signal,
}

/// What came back from trying to run the next process in the chain.
#[derive(Clone, Copy, Debug, PartialEq, Eq, Structural)]
pub enum SpawnOutcome {
    /// The OS refused or failed to start the process at all.
    NotStarted,
    /// The process ran and ended with the given status.
    Ended(ChildStatus),
}

/// A launch error, surfaced to the caller and propagated up the chain.
#[derive(Clone, Copy, Debug, PartialEq, Eq, Structural)]
pub enum LaunchError {
    /// The OS could not create the child process.
    SpawnFailed,
    /// The child ran but did not exit successfully.
    ChildFailed(ChildStatus),
}

/// The launch result owed for each outcome: success exactly when the child
/// ran and exited zero; otherwise the matching error, never swallowed.
pub open spec fn launch_result_spec(o: SpawnOutcome) -> Result<(), LaunchError> {
    match o {
        SpawnOutcome::NotStarted => Err(LaunchError::SpawnFailed),
        SpawnOutcome::Ended(st) => if st == ChildStatus::Code(0i32) {
            Ok(())
        } else {
            Err(LaunchError::ChildFailed(st))
        },
    }
}

/// Turns a spawn outcome into the launch result: `Ok` iff the child exited
/// zero, `SpawnFailed` and `ChildFailed` kept distinct.
pub fn interpret_outcome(o: SpawnOutcome) -> (r: Result<(), LaunchError>)
    ensures
        r == launch_result_spec(o),
{
    match o {
        SpawnOutcome::NotStarted => Err(LaunchError::SpawnFailed),
        SpawnOutcome::Ended(st) => match st {
            ChildStatus::Code(c) => if c == 0 {
                Ok(())
            } else {
                Err(LaunchError::ChildFailed(st))
            },
            ChildStatus::Signal => Err(LaunchError::ChildFailed(st)),
        },
    }
}

/// The exit code a process reports: zero exactly when its own launch
/// result was success.
pub open spec fn exit_code_spec(r: Result<(), LaunchError>) -> i32 {
    if r is Ok {
        0i32
    } else {
        1i32
    }
}

/// Executable form of `exit_code_spec`.
pub fn process_exit_code(r: &Result<(), LaunchError>) -> (c: i32)
    ensures
        c == exit_code_spec(*r),
{
    match r {
        Ok(_) => 0,
        Err(_) => 1,
    }
}

/// The exit code of the process `hops` levels above the terminal process
/// of a chain in which every ancestor launches exactly one child, awaits
/// it, and reports `exit_code_spec` of the interpreted outcome.
pub open spec fn chain_exit_code(terminal: i32, hops: nat) -> i32
    decreases hops,
{
    if hops == 0 {
        terminal
    } else {
        exit_code_spec(
            launch_result_spec(
                SpawnOutcome::Ended(ChildStatus::Code(chain_exit_code(terminal, (hops - 1) as nat))),
            ),
        )
    }
}

/// Exit-status propagation: if the terminal process of the chain exits
/// non-zero, every ancestor exits non-zero too, and a chain whose terminal
/// process succeeds reports success everywhere.
pub proof fn lemma_exit_propagation(terminal: i32, hops: nat)
    ensures
        chain_exit_code(terminal, hops) == 0 <==> terminal == 0,
    decreases hops,
{
    if hops > 0 {
        lemma_exit_propagation(terminal, (hops - 1) as nat);
    }
}

} // verus!
