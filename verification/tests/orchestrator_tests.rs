use vidgen_core::orchestrator::classify_stderr_line;
use vidgen_core::orchestrator::classify_stdout_line;
use vidgen_core::orchestrator::exit_status_code;
use vidgen_core::orchestrator::is_worker_failure;
use vidgen_core::orchestrator::worker_failure_message;
use vidgen_core::orchestrator::Orchestrator;
use vidgen_core::orchestrator::SpawnError;
use vidgen_core::orchestrator::WaitError;
use vidgen_core::orchestrator::WorkerEvent;

#[test]
fn stdout_progress_line_becomes_progress_event() {
    let event = classify_stdout_line("Progress: 65%".to_string());
    match event {
        WorkerEvent::Progress { value, line } => {
            assert_eq!(value.mantissa, 65);
            assert_eq!(value.scale, 0);
            assert!(!value.negative);
            assert_eq!(line, "Progress: 65%");
        }
        other => panic!("expected a progress event, got {:?}", other),
    }
}

#[test]
fn stdout_plain_line_becomes_output_event() {
    let event = classify_stdout_line("loading model".to_string());
    assert_eq!(
        event,
        WorkerEvent::Output { line: "loading model".to_string() }
    );
}

#[test]
fn stderr_line_is_never_parsed() {
    let event = classify_stderr_line("warning: 50% of memory used".to_string());
    assert_eq!(
        event,
        WorkerEvent::ErrorLine { line: "warning: 50% of memory used".to_string() }
    );
}

#[test]
fn failed_spawn_retains_no_worker_and_wait_errors() {
    let mut orch = Orchestrator::new();
    assert!(orch.authorize_spawn().is_ok());
    // The OS refused to create the process: nothing is retained.
    orch.record_spawn(false);
    assert_eq!(orch.begin_wait(), Err(WaitError::NoProcess));
}

#[test]
fn wait_consumes_the_worker() {
    let mut orch = Orchestrator::new();
    assert!(orch.authorize_spawn().is_ok());
    orch.record_spawn(true);
    assert_eq!(orch.begin_wait(), Ok(()));
    // A second wait has nothing left to consume.
    assert_eq!(orch.begin_wait(), Err(WaitError::NoProcess));
}

#[test]
fn second_spawn_while_active_is_refused() {
    let mut orch = Orchestrator::new();
    assert!(orch.authorize_spawn().is_ok());
    orch.record_spawn(true);
    assert_eq!(orch.authorize_spawn(), Err(SpawnError::AlreadyActive));
}

#[test]
fn kill_before_any_spawn_is_a_no_op() {
    let mut orch = Orchestrator::new();
    assert!(!orch.begin_kill());
    // Still usable afterwards.
    assert!(orch.authorize_spawn().is_ok());
}

#[test]
fn kill_consumes_an_active_worker() {
    let mut orch = Orchestrator::new();
    assert!(orch.authorize_spawn().is_ok());
    orch.record_spawn(true);
    assert!(orch.begin_kill());
    assert!(!orch.begin_kill());
    assert_eq!(orch.begin_wait(), Err(WaitError::NoProcess));
}

#[test]
fn exit_codes_pass_through_and_zero_is_success() {
    assert_eq!(exit_status_code(Some(0)), 0);
    assert_eq!(exit_status_code(Some(3)), 3);
    assert_eq!(exit_status_code(None), -1);
    assert!(!is_worker_failure(0));
    assert!(is_worker_failure(3));
    assert!(is_worker_failure(-1));
}

#[test]
fn failure_message_names_the_exit_code() {
    assert_eq!(
        worker_failure_message(3),
        "Video generation failed with exit code 3"
    );
    assert_eq!(
        worker_failure_message(-1),
        "Video generation failed with exit code -1"
    );
}

#[test]
fn error_texts_match_their_causes() {
    assert_eq!(
        SpawnError::OsRefused("No such file or directory".to_string()).message(),
        "Failed to spawn Python process: No such file or directory"
    );
    assert_eq!(
        SpawnError::AlreadyActive.message(),
        "A worker process is already running"
    );
    assert_eq!(WaitError::NoProcess.message(), "No process running");
    assert_eq!(
        WaitError::OsFailure("interrupted".to_string()).message(),
        "Failed to wait for process: interrupted"
    );
}
