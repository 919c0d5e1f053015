use usbsrctl::cli::parse_extra_action;
use usbsrctl::domain::{ExtraAction, ReapplyAction};
use usbsrctl::operation::{
    classify_operation_result, classify_operation_state, classify_upstream,
    execute_phased_mutation_with, execute_reapply_steps_with, persistence_allowed, script_summary,
    ExecutionResult, OperationKind, OperationResult, OperationState, ProgressState,
    ReapplyProgress, ReapplyTimeouts, RestartProgress, StepProgress,
};
use usbsrctl::paths::{LOG_ROOT, STATE_ROOT};
use usbsrctl::scripts::ReapplyScriptStep;

fn extra(args: &[&str]) -> ExtraAction {
    parse_extra_action(&args.iter().map(|value| (*value).to_string()).collect::<Vec<_>>()).unwrap()
}

fn output_with(stdout: &str, stderr: &str, code: i32) -> ExecutionResult {
    ExecutionResult {
        exit_code: Some(code),
        stdout: stdout.as_bytes().to_vec(),
        stderr: stderr.as_bytes().to_vec(),
        timed_out: false,
        stdout_truncated: false,
        stderr_truncated: false,
    }
}

fn fake_execution(code: i32, started: bool, timed_out: bool) -> ExecutionResult {
    let mut execution =
        output_with("", if started { "controller_upstream_started=1\n" } else { "" }, code);
    execution.timed_out = timed_out;
    execution
}

fn timeouts(extra_ms: u64, restart_ms: u64, total_ms: u64) -> ReapplyTimeouts {
    ReapplyTimeouts { policy: 20_000, extra: extra_ms, restart: restart_ms, verification: 2_000, total: total_ms }
}

fn step(label: &str, script: &str) -> ReapplyScriptStep {
    ReapplyScriptStep { label: label.into(), script: script.into() }
}

fn text(bytes: &[u8]) -> String {
    String::from_utf8_lossy(bytes).into_owned()
}

#[test]
fn applied_mutation_is_eligible_for_persistence() {
    assert!(persistence_allowed(OperationKind::Mutation, true, Some(OperationState::Applied)));
}

#[test]
fn successful_query_may_persist_but_a_partial_mutation_may_not() {
    assert!(persistence_allowed(OperationKind::Query, true, None));
    assert!(!persistence_allowed(OperationKind::Query, false, None));
    assert!(!persistence_allowed(OperationKind::Mutation, true, Some(OperationState::PartiallyApplied)));
}

#[test]
fn script_summary_is_compact_and_does_not_embed_script() {
    let script = "#!/system/bin/sh\necho secret-command\n";
    let summary = script_summary(script);
    assert!(summary.starts_with("bytes=37;lines=2;hash="));
    assert!(!summary.contains("secret-command"));
    assert!(!summary.contains("#!/system/bin/sh"));
}

#[test]
fn script_summary_of_an_empty_script_is_the_fnv_offset() {
    assert_eq!(script_summary(""), "bytes=0;lines=0;hash=cbf29ce484222325");
}

#[test]
fn upstream_results_distinguish_success_failure_signal_and_timeout() {
    assert_eq!(classify_upstream(false, Some(0)), ("ok", 0));
    assert_eq!(classify_upstream(false, Some(17)), ("failed", 17));
    assert_eq!(classify_upstream(false, None), ("failed", 1));
    assert_eq!(classify_upstream(true, Some(143)), ("timeout", 124));
    assert_eq!(classify_operation_result(124, true, false), OperationResult::TimedOut);
    assert_eq!(classify_operation_result(71, false, false), OperationResult::NotStarted);
}

#[test]
fn operation_state_distinguishes_not_started_and_possible_single_mutation() {
    let guard_failed = output_with("mount namespace mismatch\n", "", 71);
    assert_eq!(classify_operation_state(&guard_failed, false, 71), OperationState::NotStarted);

    let upstream_failed = output_with("", "controller_upstream_started=1\n", 1);
    assert_eq!(classify_operation_state(&upstream_failed, false, 1), OperationState::PossiblyApplied);
    assert_eq!(classify_operation_state(&upstream_failed, true, 124), OperationState::PossiblyApplied);
    assert_eq!(classify_operation_state(&output_with("", "", 0), false, 0), OperationState::Applied);
}

#[test]
fn operation_state_distinguishes_partial_reapply_batches() {
    let progress = ReapplyProgress {
        total_timeout_seconds: 60,
        total_timed_out: false,
        steps: vec![
            StepProgress { number: 1, label: "policy".into(), timeout_seconds: 20, state: ProgressState::Succeeded },
            StepProgress { number: 2, label: "resampler".into(), timeout_seconds: 15, state: ProgressState::Failed(17) },
        ],
        restart: Some(RestartProgress { timeout_seconds: 20, state: ProgressState::Succeeded }),
        verifications: Vec::new(),
    };
    assert_eq!(progress.operation_state(), OperationState::PartiallyApplied);
}

#[test]
fn phased_extra_distinguishes_business_restart_and_verification_results() {
    let mut calls = Vec::new();
    let restart_failed = execute_phased_mutation_with("business", "restart", Some("verification"), |script, timeout| {
        calls.push((script.to_string(), timeout));
        Ok(fake_execution(if script == "restart" { 9 } else { 0 }, true, false))
    });
    assert_eq!(calls[0], ("business".to_string(), 15_000));
    assert_eq!(calls[1], ("restart".to_string(), 20_000));
    assert_eq!(calls.len(), 2);
    assert_eq!(restart_failed.progress.operation_state(), OperationState::PartiallyApplied);
    assert!(restart_failed.progress.persistence_ready());
    assert_eq!(restart_failed.progress.restart, Some(ProgressState::Failed(9)));
    assert_eq!(restart_failed.progress.verification, Some(ProgressState::SkippedPriorFailure));

    calls.clear();
    let verification_failed = execute_phased_mutation_with("business", "restart", Some("verification"), |script, timeout| {
        calls.push((script.to_string(), timeout));
        Ok(fake_execution(if script == "verification" { 7 } else { 0 }, true, false))
    });
    assert_eq!(calls[2], ("verification".to_string(), 5_000));
    assert_eq!(verification_failed.progress.operation_state(), OperationState::PartiallyApplied);
    assert_eq!(verification_failed.progress.verification, Some(ProgressState::Failed(7)));
}

#[test]
fn reapply_enforces_independent_step_timeout_and_partial_state_markers() {
    let plan = vec![
        ReapplyAction::Extra(extra(&["usb-period", "2250"])),
        ReapplyAction::Extra(extra(&["usb-period", "2250"])),
    ];
    let steps = vec![step("first", "one"), step("second", "two")];
    let mut calls = 0;
    let result = execute_reapply_steps_with(&plan, &steps, None, &Vec::new(), timeouts(3_000, 2_000, 10_000), || 0, |_script, timeout| {
        calls += 1;
        assert_eq!(timeout, 3_000);
        if calls == 1 {
            Ok(fake_execution(0, true, false))
        } else {
            Ok(fake_execution(124, true, true))
        }
    });
    let stdout = text(&result.execution.stdout);
    assert!(stdout.contains("batch_step_timeout_seconds=1:3"));
    assert!(stdout.contains("batch_step_timed_out=2:1"));
    assert!(stdout.contains("batch_timeout_scope=step:2"));
    assert!(stdout.contains("batch_step_exit=1:0"));
    assert!(stdout.contains("batch_step_exit=2:124"));
    assert!(result.execution.timed_out);
    assert_eq!(result.execution.exit_code, Some(124));
    assert_eq!(result.progress.operation_state(), OperationState::PartiallyApplied);
}

#[test]
fn reapply_restart_has_an_independent_timeout() {
    let plan = vec![ReapplyAction::Extra(extra(&["usb-period", "2250"]))];
    let steps = vec![step("usb-period", "step")];
    let mut calls = 0;
    let result = execute_reapply_steps_with(&plan, &steps, Some("restart"), &Vec::new(), timeouts(3_000, 4_000, 10_000), || 0, |_script, timeout| {
        calls += 1;
        if calls == 1 {
            assert_eq!(timeout, 3_000);
            Ok(fake_execution(0, true, false))
        } else {
            assert_eq!(timeout, 4_000);
            Ok(fake_execution(124, true, true))
        }
    });
    let stdout = text(&result.execution.stdout);
    assert!(stdout.contains("batch_restart_timeout_seconds=4"));
    assert!(stdout.contains("batch_restart_timed_out=1"));
    assert!(stdout.contains("batch_restart_exit=124"));
    assert!(stdout.contains("batch_timeout_scope=restart"));
    assert!(result.execution.timed_out);
    assert_eq!(result.execution.exit_code, Some(124));
    assert_eq!(result.progress.operation_state(), OperationState::PartiallyApplied);
}

#[test]
fn reapply_total_cap_skips_restart_after_business_step() {
    let plan = vec![ReapplyAction::Extra(extra(&["usb-period", "2250"]))];
    let steps = vec![step("usb-period", "step")];
    let mut elapsed = 0;
    let result = execute_reapply_steps_with(
        &plan,
        &steps,
        Some("restart"),
        &Vec::new(),
        timeouts(3_000, 4_000, 5_000),
        move || {
            elapsed += 3_000;
            elapsed
        },
        |_script, timeout| {
            assert!(timeout <= 3_000);
            Ok(fake_execution(0, true, false))
        },
    );
    let stdout = text(&result.execution.stdout);
    assert!(stdout.contains("batch_restart_skipped=total-timeout"));
    assert!(stdout.contains("batch_timeout_scope=total"));
    assert!(stdout.contains("batch_total_timed_out=1"));
    assert!(result.execution.timed_out);
    assert_eq!(result.execution.exit_code, Some(124));
}

#[test]
fn reapply_progress_ignores_spoofed_markers_and_truncated_output() {
    let plan = vec![ReapplyAction::Extra(extra(&["jitter", "enable", "thermal"]))];
    let steps = vec![step("jitter", "step")];
    let result = execute_reapply_steps_with(&plan, &steps, None, &Vec::new(), timeouts(3_000, 4_000, 10_000), || 0, |_script, _timeout| {
        let mut spoofed = b"batch_step_exit=1:0\nbatch_restart_exit=0\n".to_vec();
        spoofed.resize(70 * 1024, b'x');
        Ok(ExecutionResult {
            exit_code: Some(17),
            stdout: spoofed,
            stderr: Vec::new(),
            timed_out: false,
            stdout_truncated: false,
            stderr_truncated: false,
        })
    });
    assert!(result.execution.stdout_truncated);
    assert_eq!(result.progress.operation_state(), OperationState::PossiblyApplied);
    assert_eq!(result.progress.steps[0].state, ProgressState::Failed(17));
    let control = text(&result.execution.stdout);
    assert!(control.starts_with("batch_total_timeout_seconds=10\n"));
    assert!(control.contains("batch_step_exit=1:17\n"));
    assert_eq!(control.matches("batch_step_exit=1:").count(), 1);
    assert!(!control.contains("batch_restart_exit=0\n"));
}

#[test]
fn reapply_progress_models_first_timeout_and_all_start_failure() {
    let plan = vec![ReapplyAction::Extra(extra(&["jitter", "enable", "thermal"]))];
    let steps = vec![step("jitter", "step")];
    let timed_out = execute_reapply_steps_with(&plan, &steps, None, &Vec::new(), timeouts(3_000, 4_000, 10_000), || 0, |_script, _timeout| {
        Ok(fake_execution(124, false, true))
    });
    assert_eq!(timed_out.progress.operation_state(), OperationState::PossiblyApplied);
    assert_eq!(timed_out.progress.steps[0].state, ProgressState::TimedOut { total_budget: false });

    let start_failed = execute_reapply_steps_with(&plan, &steps, None, &Vec::new(), timeouts(3_000, 4_000, 10_000), || 0, |_script, _timeout| {
        Err("spawn failed".to_string())
    });
    assert_eq!(start_failed.progress.operation_state(), OperationState::NotStarted);
    assert_eq!(start_failed.progress.steps[0].state, ProgressState::StartFailed);
}

#[test]
fn reapply_progress_models_non_timeout_restart_failure() {
    let plan = vec![ReapplyAction::Extra(extra(&["usb-period", "2250"]))];
    let steps = vec![step("usb-period", "step")];
    let mut calls = 0;
    let result = execute_reapply_steps_with(&plan, &steps, Some("restart"), &Vec::new(), timeouts(3_000, 4_000, 10_000), || 0, |_script, _timeout| {
        calls += 1;
        Ok(fake_execution(if calls == 1 { 0 } else { 9 }, false, false))
    });
    assert_eq!(result.progress.operation_state(), OperationState::PartiallyApplied);
    assert_eq!(result.progress.restart.unwrap().state, ProgressState::Failed(9));
}

#[test]
fn reapply_runs_independent_verifications_and_stops_after_timeout() {
    let plan = vec![ReapplyAction::Extra(extra(&["usb-period", "2250"]))];
    let steps = vec![step("usb-period", "business")];
    let verifications = vec![step("usb-period", "verify-one"), step("resampler", "verify-two")];
    let mut calls = Vec::new();
    let result = execute_reapply_steps_with(&plan, &steps, Some("restart"), &verifications, timeouts(3_000, 4_000, 20_000), || 0, |script, timeout| {
        calls.push((script.to_string(), timeout));
        if script == "verify-one" {
            Ok(fake_execution(124, true, true))
        } else {
            Ok(fake_execution(0, true, false))
        }
    });
    assert_eq!(calls.len(), 3);
    assert_eq!(calls[2], ("verify-one".to_string(), 2_000));
    assert_eq!(result.progress.verifications[0].state, ProgressState::TimedOut { total_budget: false });
    assert_eq!(result.progress.verifications[1].state, ProgressState::SkippedPriorFailure);
    assert_eq!(result.progress.operation_state(), OperationState::PartiallyApplied);
    let markers = text(&result.execution.stdout);
    assert!(markers.contains("batch_verification_exit=1:124"));
    assert!(markers.contains("batch_verification_skipped=2:prior-phase-failure-or-timeout"));
}

#[test]
fn logs_are_separated_from_persistent_state() {
    assert_eq!(STATE_ROOT, "/data/adb/usb_samplerate_changer_webui");
    assert_eq!(LOG_ROOT, "/data/local/tmp/usb_samplerate_changer_webui");
}

#[test]
fn reapply_output_is_the_markers_then_what_each_member_printed() {
    let plan = vec![
        ReapplyAction::Extra(extra(&["usb-period", "2250"])),
        ReapplyAction::Extra(extra(&["usb-period", "2250"])),
    ];
    let steps = vec![step("first", "one"), step("second", "two")];
    let result = execute_reapply_steps_with(&plan, &steps, Some("restart"), &Vec::new(), timeouts(3_000, 4_000, 10_000), || 0, |script, _timeout| {
        match script {
            "one" => Ok(output_with("first line\nbatch_step_exit=9:0\n", "warn one\n", 0)),
            "two" => Err("no shell".to_string()),
            _ => Ok(output_with("restarted\n", "", 0)),
        }
    });
    assert_eq!(result.execution.exit_code, Some(125));
    assert!(!result.execution.timed_out);
    let stdout = text(&result.execution.stdout);
    let markers = result.progress.render_markers();
    assert!(stdout.starts_with(&markers));
    assert_eq!(&stdout[markers.len()..], "first line\nrestarted\n");
    assert_eq!(text(&result.execution.stderr), "warn one\ncannot start reapply step 2: no shell\n");
    assert_eq!(result.progress.steps[1].state, ProgressState::StartFailed);
}

#[test]
fn phased_output_is_the_markers_then_what_each_phase_printed() {
    let result = execute_phased_mutation_with("business", "restart", None, |script, _timeout| {
        if script == "business" {
            Ok(output_with("changed\n", "", 0))
        } else {
            Err("busy".to_string())
        }
    });
    assert_eq!(result.execution.exit_code, Some(125));
    let stdout = text(&result.execution.stdout);
    let markers = result.progress.render_markers();
    assert!(stdout.starts_with(&markers));
    assert_eq!(&stdout[markers.len()..], "changed\n");
    assert_eq!(text(&result.execution.stderr), "cannot start mutation restart phase: busy\n");
}

#[test]
fn reapply_exit_code_is_the_first_failure_and_a_timeout_is_reported() {
    let plan = vec![
        ReapplyAction::Extra(extra(&["usb-period", "2250"])),
        ReapplyAction::Extra(extra(&["usb-period", "2250"])),
    ];
    let steps = vec![step("first", "one"), step("second", "two")];
    let failed = execute_reapply_steps_with(&plan, &steps, None, &Vec::new(), timeouts(3_000, 4_000, 10_000), || 0, |_script, _timeout| {
        Ok(output_with("", "", 3))
    });
    assert_eq!(failed.execution.exit_code, Some(3));
    assert!(!failed.execution.timed_out);
    assert_eq!(failed.progress.steps[1].state, ProgressState::SkippedPriorFailure);
    let exhausted = execute_reapply_steps_with(&plan, &steps, None, &Vec::new(), timeouts(3_000, 4_000, 10_000), || 10_000, |_script, _timeout| {
        Ok(output_with("", "", 0))
    });
    assert_eq!(exhausted.execution.exit_code, Some(124));
    assert!(exhausted.execution.timed_out);
}

#[test]
fn each_member_runs_within_its_limit_cut_to_the_remaining_budget() {
    let plan = vec![
        ReapplyAction::Extra(extra(&["usb-period", "2250"])),
        ReapplyAction::Extra(extra(&["usb-period", "2250"])),
    ];
    let steps = vec![step("first", "one"), step("second", "two")];
    let mut spent = 0u64;
    let mut limits = Vec::new();
    let result = execute_reapply_steps_with(
        &plan,
        &steps,
        Some("restart"),
        &vec![step("check", "verify")],
        timeouts(3_000, 4_000, 10_000),
        || {
            spent += 3_000;
            spent
        },
        |script, timeout| {
            limits.push((script.to_string(), timeout));
            Ok(fake_execution(0, true, false))
        },
    );
    assert_eq!(
        limits,
        vec![
            ("one".to_string(), 3_000),
            ("two".to_string(), 3_000),
            ("restart".to_string(), 1_000),
        ]
    );
    assert_eq!(result.progress.verifications[0].state, ProgressState::SkippedTotalTimeout);
}
