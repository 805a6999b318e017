//! The launch: the child's steps before it becomes the target program, the
//! supervisor's reading of what `waitpid` reports, and the exit code of the
//! whole run.

use vstd::prelude::*;

verus! {

/// The program that is started inside the group.
pub const PROGRAM: &'static str = "firefox";

/// The argument vector of the target program: its name, then the caller's
/// arguments unchanged.
pub fn exec_argv(args: Vec<String>) -> (r: Vec<String>)
    ensures
        r@.len() == args@.len() + 1,
        r@[0]@ == PROGRAM@,
        r@.subrange(1, r@.len() as int) == args@,
{
    let mut r = args;
    r.insert(0, PROGRAM.to_owned());
    assert(r@.subrange(1, r@.len() as int) =~= args@);
    r
}

/// A step of the child between the fork and the target program.
#[derive(Clone, Copy, Debug, PartialEq, Eq, Structural)]
pub enum ChildStage {
    /// Write its own id into the group's process list.
    EnterCgroup,
    /// Set its effective user id to its real one.
    DropPrivilege,
    /// Replace itself with the target program.
    Exec,
}

/// What the child does after a step.
#[derive(Clone, Copy, Debug, PartialEq, Eq, Structural)]
pub enum ChildStep {
    Next(ChildStage),
    /// Terminate at once with this status.
    Exit(i32),
}

/// The child's first step: joining the group comes while it still holds
/// the privilege that writing the process list needs.
pub fn child_first_stage() -> (r: ChildStage)
    ensures
        r == ChildStage::EnterCgroup,
{
    ChildStage::EnterCgroup
}

/// What follows a step of the child. Joining the group comes before the
/// privilege drop, and that before the exec; a failed step ends the child
/// with status 1. A successful exec never returns, so a return from it is a
/// failure whatever `succeeded` says.
pub fn child_after(stage: ChildStage, succeeded: bool) -> (r: ChildStep)
    ensures
        stage == ChildStage::EnterCgroup && succeeded ==> r == ChildStep::Next(
            ChildStage::DropPrivilege,
        ),
        stage == ChildStage::DropPrivilege && succeeded ==> r == ChildStep::Next(ChildStage::Exec),
        stage == ChildStage::Exec || !succeeded ==> r == ChildStep::Exit(1),
{
    if !succeeded {
        return ChildStep::Exit(1);
    }
    match stage {
        ChildStage::EnterCgroup => ChildStep::Next(ChildStage::DropPrivilege),
        ChildStage::DropPrivilege => ChildStep::Next(ChildStage::Exec),
        ChildStage::Exec => ChildStep::Exit(1),
    }
}

/// What a wait on the child reported.
#[derive(Clone, Copy, Debug, PartialEq, Eq, Structural)]
pub enum WaitOutcome {
    /// The child exited with this code.
    Exited(i32),
    /// The child was ended by this signal.
    Signaled(i32),
    /// The child stopped or continued; it is still there.
    Other,
}

/// What the supervisor does with a wait's outcome.
#[derive(Clone, Copy, Debug, PartialEq, Eq, Structural)]
pub enum WaitDecision {
    /// The child is gone: the run ends with this code.
    Finish(i32),
    /// Wait again.
    WaitAgain,
}

/// An exit code passes through; a signal `s` gives `128 | s`, which is
/// `128 + s` for the signals below 128; any other report means waiting on.
pub fn on_wait(outcome: WaitOutcome) -> (r: WaitDecision)
    ensures
        outcome matches WaitOutcome::Exited(c) ==> r == WaitDecision::Finish(c),
        outcome matches WaitOutcome::Signaled(s) ==> r == WaitDecision::Finish(128i32 | s),
        outcome matches WaitOutcome::Signaled(s) ==> (0 <= s < 128 ==> r == WaitDecision::Finish(
            (128 + s) as i32,
        )),
        outcome is Other ==> r == WaitDecision::WaitAgain,
{
    match outcome {
        WaitOutcome::Exited(c) => WaitDecision::Finish(c),
        WaitOutcome::Signaled(s) => {
            assert(0 <= s < 128 ==> 128i32 | s == (128 + s) as i32) by (bit_vector);
            WaitDecision::Finish(128i32 | s)
        },
        WaitOutcome::Other => WaitDecision::WaitAgain,
    }
}

/// Why a run failed before the child's outcome was known.
#[derive(Clone, Copy, Debug, PartialEq, Eq, Structural)]
pub enum Failure {
    /// The command line could not be read.
    Arguments,
    /// The temporary group could not be created.
    CreateCgroup,
    /// The memory limits could not be written.
    WriteLimits,
    /// The child process could not be created.
    Fork,
    /// Waiting on the child failed.
    Wait,
}

/// The exit code of the whole run: the child's outcome where there is one,
/// 2 for a bad command line and 1 for any other failure.
pub fn exit_code(outcome: Result<i32, Failure>) -> (r: i32)
    ensures
        outcome matches Ok(c) ==> r == c,
        outcome == Err::<i32, Failure>(Failure::Arguments) ==> r == 2,
        outcome matches Err(f) ==> (f != Failure::Arguments ==> r == 1),
{
    match outcome {
        Ok(c) => c,
        Err(Failure::Arguments) => 2,
        Err(_) => 1,
    }
}

} // verus!
