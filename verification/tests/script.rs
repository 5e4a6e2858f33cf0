use ewe::recipe::Execution;
use ewe::script::{
    advance, after_call, check_shell, prettify_error, shell_script, start_stage, Phase,
    ScopeClosed, ScriptError, ShellOutcome, StageKind, StageScope, StageStep,
};

#[test]
fn the_shell_stops_at_the_first_failure() {
    assert_eq!(shell_script("make install"), "set -e; make install");
    assert_eq!(shell_script(""), "set -e; ");
}

#[test]
fn a_command_must_end_with_the_status_zero() {
    assert_eq!(check_shell("make", ShellOutcome::Exited(0)), Ok(()));
    assert_eq!(
        check_shell("make", ShellOutcome::Exited(2)),
        Err("command `make` exited with status 2".to_string())
    );
    assert_eq!(
        check_shell("make -j4", ShellOutcome::Exited(127)),
        Err("command `make -j4` exited with status 127".to_string())
    );
    assert_eq!(
        check_shell("x", ShellOutcome::Exited(-1)),
        Err("command `x` exited with status -1".to_string())
    );
    assert_eq!(
        check_shell("x", ShellOutcome::Exited(i32::MIN)),
        Err("command `x` exited with status -2147483648".to_string())
    );
    assert_eq!(
        check_shell("sleep 9", ShellOutcome::Signaled),
        Err("command `sleep 9` terminated by signal".to_string())
    );
}

#[test]
fn a_text_goes_to_the_shell() {
    let stage = Execution::Shell("make".to_string());
    match start_stage(&stage, StageKind::Build, "/tmp/pkg") {
        StageStep::RunShell(s) => assert_eq!(s, "set -e; make"),
        _ => panic!("a text goes to the shell"),
    }
}

#[test]
fn a_function_is_called_with_the_arguments_of_its_stage() {
    let stage = Execution::Fn(3);
    for kind in [StageKind::Prepare, StageKind::Build, StageKind::Check] {
        match start_stage(&stage, kind, "/tmp/pkg") {
            StageStep::Call { handle, arguments } => {
                assert_eq!(handle, 3);
                assert!(arguments.is_empty());
            }
            _ => panic!("a function is called"),
        }
    }
    match start_stage(&stage, StageKind::Pack, "/tmp/pkg") {
        StageStep::Call { handle, arguments } => {
            assert_eq!(handle, 3);
            assert_eq!(arguments, vec!["/tmp/pkg".to_string()]);
        }
        _ => panic!("a function is called"),
    }
}

#[test]
fn a_text_that_a_function_hands_back_goes_to_the_shell() {
    match after_call(Some("make install")) {
        StageStep::RunShell(s) => assert_eq!(s, "set -e; make install"),
        _ => panic!("a text goes to the shell"),
    }
    assert!(matches!(after_call(None), StageStep::Finished));
}

#[test]
fn commands_of_a_stage_run_in_its_directory() {
    let scope = StageScope::enter("/tmp/src");
    let request = scope.run("ls").unwrap();
    assert_eq!(request.script, "set -e; ls");
    assert_eq!(request.directory, "/tmp/src");
    let (scope, outcome) = scope.cd("hello-2.12");
    assert_eq!(outcome, Ok(()));
    assert_eq!(scope.run("make").unwrap().directory, "/tmp/src/hello-2.12");
    let (scope, _) = scope.cd("../build/");
    assert_eq!(scope.directory, "/tmp/src/hello-2.12/../build/");
    let (scope, _) = scope.cd("x");
    assert_eq!(scope.directory, "/tmp/src/hello-2.12/../build/x");
    let (scope, _) = scope.cd("/opt");
    assert_eq!(scope.directory, "/opt");
    let (scope, _) = scope.cd("");
    assert_eq!(scope.directory, "/opt/");
    let scope = StageScope::enter("");
    let (scope, _) = scope.cd("a");
    assert_eq!(scope.directory, "a");
}

#[test]
fn the_helpers_are_refused_after_the_stage() {
    let scope = StageScope::enter("/tmp/src").leave();
    assert!(!scope.open);
    assert_eq!(scope.run("ls").err(), Some(ScopeClosed));
    let (scope, outcome) = scope.cd("x");
    assert_eq!(outcome, Err(ScopeClosed));
    assert_eq!(scope.directory, "/tmp/src");
    assert_eq!(scope.run("ls").err(), Some(ScopeClosed));
}

#[test]
fn errors_of_the_interpreter_are_worded_by_their_message() {
    assert_eq!(prettify_error(&ScriptError::Runtime("boom".to_string())), "boom");
    assert_eq!(prettify_error(&ScriptError::Syntax("near 'x'".to_string())), "near 'x'");
    assert_eq!(prettify_error(&ScriptError::Memory("out".to_string())), "out");
    assert_eq!(prettify_error(&ScriptError::Other("other: x".to_string())), "other: x");
}

#[test]
fn the_traceback_is_put_after_the_cause_once() {
    let inner = ScriptError::Callback {
        traceback: "stack traceback:\n\tinner".to_string(),
        cause: Box::new(ScriptError::Runtime("boom".to_string())),
    };
    assert_eq!(prettify_error(&inner), "boom\nstack traceback:\n\tinner");
    let outer = ScriptError::Callback {
        traceback: "stack traceback:\n\touter".to_string(),
        cause: Box::new(inner),
    };
    assert_eq!(prettify_error(&outer), "boom\nstack traceback:\n\tinner");
    let with_mark = ScriptError::Callback {
        traceback: "t".to_string(),
        cause: Box::new(ScriptError::Runtime("x stack traceback: y".to_string())),
    };
    assert_eq!(prettify_error(&with_mark), "x stack traceback: y");
}

#[test]
fn the_phases_follow_each_other_until_one_fails() {
    assert_eq!(advance(Phase::Fetch, true), Phase::Prepare);
    assert_eq!(advance(Phase::Prepare, true), Phase::Build);
    assert_eq!(advance(Phase::Build, true), Phase::Pack);
    assert_eq!(advance(Phase::Pack, true), Phase::Done);
    assert_eq!(advance(Phase::Done, true), Phase::Done);
    for phase in [Phase::Fetch, Phase::Prepare, Phase::Build, Phase::Pack] {
        assert_eq!(advance(phase, false), Phase::Failed);
    }
    assert_eq!(advance(Phase::Failed, true), Phase::Failed);
    assert_eq!(advance(Phase::Done, false), Phase::Done);
}
