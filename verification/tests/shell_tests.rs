use wrun::shell::{Capture, ProcPoll, ProcWait, RunOutcome, Shell};

fn capture(stdout: &str, stderr: &str, code: i32) -> Capture {
    Capture { stdout: stdout.to_string(), stderr: stderr.to_string(), code }
}

#[test]
fn wait_returns_exit_code_and_caches() {
    let mut sh = Shell::new();
    let h = sh.spawnAsync(true);
    assert!(h >= 1);
    assert!(sh.needs_poll(h));
    let code = sh.wait(h, Some(ProcWait::Exited(capture("out", "err", 3))));
    assert_eq!(code, 3);
    // the capture is cached: no further OS observation is owed
    assert!(!sh.needs_poll(h));
    assert_eq!(sh.getExitCode(h), 3);
    assert_eq!(sh.getStdout(h), "out");
    assert_eq!(sh.getStderr(h), "err");
    // a second wait answers from the cache
    assert_eq!(sh.wait(h, None), 3);
    assert_eq!(sh.stdout(), "out");
    assert_eq!(sh.exitCode(), 3);
    assert!(!sh.success());
}

#[test]
fn is_done_false_while_running_then_true_once() {
    let mut sh = Shell::new();
    let h = sh.spawnAsync(true);
    assert!(!sh.isDone(h, Some(ProcPoll::StillRunning)));
    assert!(sh.needs_poll(h));
    assert!(sh.isDone(h, Some(ProcPoll::Exited(capture("hello", "", 0)))));
    // capture happened exactly once; a second check answers from the cache
    assert!(!sh.needs_poll(h));
    assert!(sh.isDone(h, None));
    assert_eq!(sh.getStdout(h), "hello");
    assert_eq!(sh.getExitCode(h), 0);
}

#[test]
fn poll_failure_reports_done_without_capture() {
    let mut sh = Shell::new();
    let h = sh.spawnAsync(true);
    assert!(sh.isDone(h, Some(ProcPoll::PollFailed)));
    // nothing was captured
    assert_eq!(sh.getExitCode(h), -1);
    assert_eq!(sh.getStdout(h), "");
}

#[test]
fn wait_failure_answers_sentinel() {
    let mut sh = Shell::new();
    let h = sh.spawnAsync(true);
    assert_eq!(sh.wait(h, Some(ProcWait::WaitFailed)), -1);
    assert_eq!(sh.exitCode(), -1);
    assert!(!sh.success());
}

#[test]
fn cleanup_makes_handle_unknown() {
    let mut sh = Shell::new();
    let h = sh.spawnAsync(true);
    sh.isDone(h, Some(ProcPoll::Exited(capture("x", "", 0))));
    assert!(sh.cleanup(h));
    assert!(!sh.cleanup(h));
    // the handle now behaves as unknown
    assert!(sh.isDone(h, None));
    assert_eq!(sh.getExitCode(h), -1);
    assert_eq!(sh.getStdout(h), "");
    assert_eq!(sh.wait(h, None), -1);
}

#[test]
fn handles_strictly_increase_and_never_return() {
    let mut sh = Shell::new();
    let h1 = sh.spawnAsync(true);
    let h2 = sh.spawnAsync(true);
    assert!(h2 > h1);
    assert!(sh.cleanup(h1));
    let h3 = sh.spawnAsync(true);
    assert!(h3 > h2);
    assert_ne!(h3, h1);
}

#[test]
fn failed_spawn_returns_zero_and_changes_nothing() {
    let mut sh = Shell::new();
    let h = sh.spawnAsync(false);
    assert_eq!(h, 0);
    let h1 = sh.spawnAsync(true);
    assert_eq!(sh.getExitCode(h1), -1);
}

#[test]
fn unknown_handle_reads_sentinels() {
    let mut sh = Shell::new();
    assert!(sh.isDone(77, None));
    assert_eq!(sh.wait(77, None), -1);
    assert_eq!(sh.getStdout(77), "");
    assert_eq!(sh.getStderr(77), "");
    assert_eq!(sh.getExitCode(77), -1);
    assert!(!sh.cleanup(77));
}

#[test]
fn record_run_finished_and_failed() {
    let mut sh = Shell::new();
    let ok = sh.record_run(RunOutcome::Finished {
        stdout: "o".to_string(),
        stderr: "e".to_string(),
        code: Some(0),
        success: true,
    });
    assert!(ok);
    assert_eq!(sh.stdout(), "o");
    assert_eq!(sh.stderr(), "e");
    assert_eq!(sh.exitCode(), 0);
    assert!(sh.success());

    let ok = sh.record_run(RunOutcome::Finished {
        stdout: String::new(),
        stderr: String::new(),
        code: None,
        success: false,
    });
    assert!(!ok);
    assert_eq!(sh.exitCode(), -1);

    let ok = sh.record_run(RunOutcome::LaunchFailed { message: "no such shell".to_string() });
    assert!(!ok);
    assert_eq!(sh.stderr(), "no such shell");
    assert_eq!(sh.exitCode(), -1);
}

#[test]
fn record_interactive_codes() {
    let mut sh = Shell::new();
    assert_eq!(sh.record_interactive(Some((Some(7), false))), 7);
    assert_eq!(sh.exitCode(), 7);
    assert_eq!(sh.record_interactive(Some((None, false))), -1);
    assert_eq!(sh.record_interactive(None), -1);
    assert!(!sh.success());
}
