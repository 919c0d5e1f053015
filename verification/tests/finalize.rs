use usbsrctl::android::A2dpState;
use usbsrctl::finalize::{
    begin_post_check, finish_route_check, note_audit_failure, note_timeout, plan_finalize,
    record_persistence, render_business_commands, render_command_log, render_final_report,
    render_last_status, render_operation_log, AuditRecord, PostCheck,
};
use usbsrctl::operation::{ExecutionResult, OperationKind, OperationResult, OperationState};

fn execution(code: Option<i32>, stdout: &str, stderr: &str, timed_out: bool) -> ExecutionResult {
    ExecutionResult {
        exit_code: code,
        stdout: stdout.as_bytes().to_vec(),
        stderr: stderr.as_bytes().to_vec(),
        timed_out,
        stdout_truncated: false,
        stderr_truncated: false,
    }
}

fn record<'a>(kind: OperationKind, commands: &'a [String]) -> AuditRecord<'a> {
    AuditRecord {
        action: if kind == OperationKind::Query { "extra-diagnose-audio" } else { "apply" },
        kind,
        result: OperationResult::Success,
        route: "test",
        code: 0,
        command: "/system/bin/sh -s",
        business_commands: commands,
        script: "",
        timed_out: false,
        stdout_truncated: false,
        stderr_truncated: false,
        upstream_status: "ok",
        post_check: "not-required",
        state_persist: "ok",
        operation_applied: kind == OperationKind::Mutation,
        operation_state: if kind == OperationKind::Mutation { Some(OperationState::Applied) } else { None },
    }
}

#[test]
fn a_successful_mutation_is_applied_persisted_and_route_checked() {
    let done = execution(Some(0), "", "", false);
    let plan = plan_finalize(OperationKind::Mutation, &done, None, None, Some(A2dpState::Connected));
    assert_eq!(plan.upstream_status, "ok");
    assert_eq!(plan.operation_state, Some(OperationState::Applied));
    assert!(plan.operation_applied && plan.operation_started && plan.persistence_allowed);
    assert_eq!(plan.post_check, PostCheck::RouteCheck);
}

#[test]
fn a_mutation_stopped_by_the_guard_is_not_started_and_skips_everything() {
    let refused = execution(Some(71), "global mount namespace mismatch\n", "", false);
    let plan = plan_finalize(OperationKind::Mutation, &refused, None, None, Some(A2dpState::Connected));
    assert_eq!(plan.upstream_status, "failed");
    assert_eq!(plan.upstream_code, 71);
    assert_eq!(plan.operation_state, Some(OperationState::NotStarted));
    assert!(!plan.operation_started && !plan.persistence_allowed);
    assert_eq!(plan.post_check, PostCheck::Skipped);
}

#[test]
fn a_query_has_no_state_and_persists_only_after_success() {
    let done = execution(Some(0), "", "", false);
    let plan = plan_finalize(OperationKind::Query, &done, None, None, None);
    assert_eq!(plan.operation_state, None);
    assert!(plan.persistence_allowed && !plan.operation_applied);
    assert_eq!(plan.post_check, PostCheck::Skipped);
    let failed = execution(Some(2), "", "", false);
    assert!(!plan_finalize(OperationKind::Query, &failed, None, None, None).persistence_allowed);
}

#[test]
fn timeouts_are_noted_and_route_failures_end_with_code_72() {
    let mut timed = execution(None, "", "", true);
    note_timeout(&mut timed);
    assert_eq!(timed.stderr, b"controller execution timed out\n".to_vec());
    let plan = plan_finalize(OperationKind::Mutation, &timed, None, None, Some(A2dpState::Unknown));
    assert_eq!(plan.upstream_code, 124);
    assert_eq!(plan.upstream_status, "timeout");

    let mut out = execution(Some(0), "", "", false);
    assert_eq!(begin_post_check(PostCheck::Unknown, &mut out), "unknown");
    assert_eq!(out.stdout, b"bluetooth_a2dp_state=unknown\n".to_vec());
    let (label, code) = finish_route_check(&mut out, 0, Err("gone".to_string()));
    assert_eq!((label, code), ("a2dp-route-failed", 72));
    assert_eq!(out.stderr, b"Bluetooth media route verification failed: gone\n".to_vec());
    let (label, code) = finish_route_check(&mut out, 0, Ok("verified"));
    assert_eq!((label, code), ("ok", 0));
    assert!(String::from_utf8_lossy(&out.stdout).ends_with("bluetooth_route_check=verified\nbluetooth_a2dp_after=1\n"));
}

#[test]
fn persistence_failures_turn_success_into_code_73() {
    let mut out = execution(Some(0), "", "", false);
    assert_eq!(record_persistence(&mut out, OperationKind::Mutation, 0, None), ("skipped", 0));
    assert_eq!(record_persistence(&mut out, OperationKind::Mutation, 0, Some(Ok("ok"))), ("ok", 0));
    assert_eq!(record_persistence(&mut out, OperationKind::Mutation, 0, Some(Err("disk".to_string()))), ("failed", 73));
    assert_eq!(record_persistence(&mut out, OperationKind::Query, 72, Some(Err("disk".to_string()))), ("failed", 72));
    let text = String::from_utf8_lossy(&out.stderr).into_owned();
    assert!(text.contains("System was modified but controller state persistence failed: disk\n"));
    assert!(text.contains("Query succeeded but controller preference persistence failed: disk\n"));
    assert_eq!(note_audit_failure(&mut out, "full"), "failed");
    assert!(String::from_utf8_lossy(&out.stderr).ends_with("Audit log write failed: full\n"));
}

#[test]
fn query_audit_does_not_replace_last_mutation_status() {
    let query = record(OperationKind::Query, &[]);
    assert!(render_last_status(&query, 7).is_none());
    let log = render_operation_log(&query, 7, &execution(Some(0), "", "", false));
    assert!(log.contains("operation_kind=query\n"));
    assert!(log.contains("operation_result=success\n"));
    assert!(!log.contains("operation_state="));

    let mutation = record(OperationKind::Mutation, &[]);
    let status = render_last_status(&mutation, 7).unwrap();
    assert!(status.contains("last_operation_kind=mutation\n"));
    assert!(status.contains("last_operation_result=success\n"));
    assert!(status.contains("last_operation_state=applied\n"));
}

#[test]
fn audit_logs_number_business_commands_and_end_with_the_output() {
    let commands = vec!["one".to_string(), "two".to_string()];
    assert_eq!(render_business_commands(&commands), "business_command_1=one\nbusiness_command_2=two\n");
    let mutation = record(OperationKind::Mutation, &commands);
    let header = render_command_log(&mutation, 1700000000);
    assert!(header.starts_with("time=1700000000\naction=apply\noperation_kind=mutation\n"));
    assert!(header.contains("operation_state=applied\naudit_status=ok\ncommand=/system/bin/sh -s\nrunner_command=/system/bin/sh -s\nbusiness_command_1=one\n"));
    let log = render_operation_log(&mutation, 1700000000, &execution(Some(0), "out", "err", false));
    assert!(log.starts_with(&header));
    assert!(log.ends_with("\n[stdout]\nout\n\n[stderr]\nerr\n"));
}

#[test]
fn final_report_lists_every_outcome_field() {
    let mutation = record(OperationKind::Mutation, &[]);
    let report = render_final_report(&mutation, 0, "ok");
    assert!(report.starts_with("controller_action=apply\noperation_kind=mutation\noperation_result=success\noperation_applied=1\noperation_state=applied\ncontroller_route=test\ncontroller_exit=0\n"));
    assert!(report.contains("\ncommand_log=/data/local/tmp/usb_samplerate_changer_webui/last-command.log\n"));
    assert!(report.ends_with("script_summary=bytes=0;lines=0;hash=cbf29ce484222325\n"));
}
