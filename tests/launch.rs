use firefox_memlimit::launch::{
    child_after, child_first_stage, exec_argv, exit_code, on_wait, ChildStage, ChildStep, Failure,
    WaitDecision, WaitOutcome, PROGRAM,
};

#[test]
fn argv_starts_with_the_program() {
    let argv = exec_argv(vec!["--private-window".to_string(), "-P".to_string(), "x y".to_string()]);
    assert_eq!(argv, vec!["firefox", "--private-window", "-P", "x y"]);
    assert_eq!(exec_argv(Vec::new()), vec![PROGRAM.to_string()]);
}

#[test]
fn child_steps_in_order() {
    let first = child_first_stage();
    assert_eq!(first, ChildStage::EnterCgroup);
    assert_eq!(child_after(first, true), ChildStep::Next(ChildStage::DropPrivilege));
    assert_eq!(child_after(ChildStage::DropPrivilege, true), ChildStep::Next(ChildStage::Exec));
    assert_eq!(child_after(ChildStage::Exec, false), ChildStep::Exit(1));
    assert_eq!(child_after(ChildStage::Exec, true), ChildStep::Exit(1));
}

#[test]
fn failed_child_step_exits_one() {
    assert_eq!(child_after(ChildStage::EnterCgroup, false), ChildStep::Exit(1));
    assert_eq!(child_after(ChildStage::DropPrivilege, false), ChildStep::Exit(1));
}

#[test]
fn exit_code_seven_passes_through() {
    assert_eq!(on_wait(WaitOutcome::Exited(7)), WaitDecision::Finish(7));
    assert_eq!(exit_code(Ok(7)), 7);
}

#[test]
fn signal_nine_gives_137() {
    assert_eq!(on_wait(WaitOutcome::Signaled(9)), WaitDecision::Finish(137));
    assert_eq!(on_wait(WaitOutcome::Signaled(15)), WaitDecision::Finish(143));
}

#[test]
fn stopped_child_is_waited_on_again() {
    assert_eq!(on_wait(WaitOutcome::Other), WaitDecision::WaitAgain);
}

#[test]
fn failure_exit_codes() {
    assert_eq!(exit_code(Err(Failure::Arguments)), 2);
    for f in [Failure::CreateCgroup, Failure::WriteLimits, Failure::Fork, Failure::Wait] {
        assert_eq!(exit_code(Err(f)), 1);
    }
    assert_eq!(exit_code(Ok(0)), 0);
}
