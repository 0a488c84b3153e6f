use fanpipe::errors::PipelineStage;
use fanpipe::errors::ProcessIOError;
use fanpipe::errors::ProcessSpawnError;
use fanpipe::pipeline::select_stream;
use fanpipe::pipeline::CommandPlan;
use fanpipe::pipeline::ExitReport;
use fanpipe::pipeline::ProcessLedger;
use fanpipe::pipeline::StdioMode;

#[test]
fn plan_records_the_invocation() {
    let plan = CommandPlan::plan(
        String::from("wc"),
        Vec::new(),
        StdioMode::Piped,
        StdioMode::Piped,
    );
    assert_eq!(plan.program, "wc");
    assert!(plan.args.is_empty());
    assert_eq!(plan.stdin_mode, StdioMode::Piped);
    assert_eq!(plan.stdout_mode, StdioMode::Piped);
    assert_eq!(plan.stderr_mode, StdioMode::Inherited);
}

#[test]
fn plan_can_reconfigure_stderr() {
    let plan = CommandPlan::plan(
        String::from("rustc"),
        vec![String::from("--version")],
        StdioMode::Ignored,
        StdioMode::Piped,
    )
    .with_stderr(StdioMode::Piped);
    assert_eq!(plan.program, "rustc");
    assert_eq!(plan.args, vec![String::from("--version")]);
    assert_eq!(plan.stderr_mode, StdioMode::Piped);
}

#[test]
fn piped_pipeline_releases_every_stream() {
    // The word-count pipeline: piped input, piped output.  Writing the
    // text and closing input must come before the ledger is complete, so
    // the subprocess observes end-of-input and can emit its counts.
    let plan = CommandPlan::plan(
        String::from("wc"),
        Vec::new(),
        StdioMode::Piped,
        StdioMode::Piped,
    );
    let mut ledger = ProcessLedger::on_spawn(&plan);
    assert!(!ledger.is_complete());
    ledger.write_and_close();
    assert!(!ledger.is_complete());
    ledger.read_all_output();
    assert!(!ledger.is_complete());
    ledger.wait();
    assert!(ledger.is_complete());
}

#[test]
fn wait_first_order_is_also_legal() {
    // Waiting is independent of draining output; a host that waits first
    // drains the output on its own thread of control.
    let plan = CommandPlan::plan(
        String::from("wc"),
        Vec::new(),
        StdioMode::Piped,
        StdioMode::Piped,
    );
    let mut ledger = ProcessLedger::on_spawn(&plan);
    ledger.write_and_close();
    ledger.wait();
    assert!(!ledger.is_complete());
    ledger.read_all_output();
    assert!(ledger.is_complete());
}

#[test]
fn unpiped_streams_need_no_draining() {
    let plan = CommandPlan::plan(
        String::from("sleep"),
        vec![String::from("5s")],
        StdioMode::Inherited,
        StdioMode::Inherited,
    );
    let mut ledger = ProcessLedger::on_spawn(&plan);
    assert!(!ledger.is_complete());
    ledger.wait();
    assert!(ledger.is_complete());
}

#[test]
fn report_takes_stdout_on_success_and_stderr_on_failure() {
    let stdout_bytes = b"rustc 1.0.0\n".to_vec();
    let stderr_bytes = b"error: unknown flag\n".to_vec();
    let succeeded = ExitReport { success: true, code: Some(0) };
    let failed = ExitReport { success: false, code: Some(1) };
    assert_eq!(
        select_stream(&succeeded, &stdout_bytes, &stderr_bytes),
        &stdout_bytes
    );
    assert_eq!(
        select_stream(&failed, &stdout_bytes, &stderr_bytes),
        &stderr_bytes
    );
}

#[test]
fn spawn_and_stream_failures_are_values() {
    // A missing binary and a permission fault are inspectable results,
    // never panics; a stream fault names its command and stage.
    assert_ne!(ProcessSpawnError::NotFound, ProcessSpawnError::PermissionDenied);
    let fault = ProcessIOError { command: String::from("wc"), stage: PipelineStage::WriteInput };
    assert_eq!(fault.stage, PipelineStage::WriteInput);
    assert_eq!(fault.command, "wc");
}
