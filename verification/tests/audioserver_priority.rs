use usbsrctl::audioserver_priority::{
    baseline_for, enabled_marker, is_legacy_watch_process, is_watch_process, lock_refusal,
    needs_raise, needs_restore, parse_baseline, parse_task_stat, priority_setting_report,
    raise_outcome, read_pid, record_task, render_baseline, restore_applies, restore_outcome,
    start_step, watch_interval_ms, watch_step, Baseline, PriorityChange, StartStep, TaskStat,
    Tally, WatchStep,
};

fn sample() -> Baseline {
    Baseline { boot_id: "boot".to_string(), pid: 42, tasks: vec![(42, 0), (43, -16)] }
}

#[test]
fn parses_nice_after_a_task_name_with_spaces_and_parentheses() {
    let fields: Vec<String> = (1..=37).map(|value| value.to_string()).collect();
    let mut stat = format!("123 (Audio Worker (A)) S {}", fields.join(" "));
    stat.push_str(" 2");
    let parsed = parse_task_stat(&stat).unwrap();
    assert_eq!(parsed.nice, 16);
    assert_eq!(parsed.policy, 2);
}

#[test]
fn parses_the_shell_compatible_baseline_format() {
    let baseline = sample();
    let written = render_baseline(&baseline);
    assert_eq!(parse_baseline(&written), Some(baseline));
}

#[test]
fn the_baseline_file_is_written_line_by_line() {
    assert_eq!(render_baseline(&sample()), "boot_id=boot\npid=42\ntask_42=0\ntask_43=-16\n");
}

#[test]
fn a_short_or_malformed_stat_line_is_refused() {
    assert_eq!(parse_task_stat("123 (x) S 1 2 3"), None);
    assert_eq!(parse_task_stat("no parenthesis here"), None);
    let fields: Vec<String> = (1..=38).map(|value| value.to_string()).collect();
    let stat = format!("7 (a) S {}", fields.join(" ")).replace(" 16 ", " x ");
    assert_eq!(parse_task_stat(&stat), None);
    let fields: Vec<String> = (1..=38).map(|value| value.to_string()).collect();
    let stat = format!("7 (a) S {}", fields.join(" ")).replace(" 16 ", " -5 ");
    assert_eq!(parse_task_stat(&stat), Some(TaskStat { nice: -5, policy: 38 }));
}

#[test]
fn the_baseline_reader_skips_unknown_keys_and_refuses_bad_lines() {
    assert_eq!(
        parse_baseline("boot_id=b\nother=1\ntask_x=3\npid=7\ntask_9=-3\ntask_2=4\n"),
        Some(Baseline { boot_id: "b".to_string(), pid: 7, tasks: vec![(2, 4), (9, -3)] })
    );
    assert_eq!(parse_baseline("boot_id=b\npid=7\nno separator\n"), None);
    assert_eq!(parse_baseline("boot_id=b\npid=7\ntask_3=high\n"), None);
    assert_eq!(parse_baseline("boot_id=b\n"), None);
    assert_eq!(parse_baseline("pid=7\n"), None);
    assert_eq!(
        parse_baseline("boot_id=b\npid=7\ntask_3=1\ntask_3=2\n"),
        Some(Baseline { boot_id: "b".to_string(), pid: 7, tasks: vec![(3, 2)] })
    );
}

#[test]
fn a_stored_baseline_is_kept_only_for_its_boot_and_process() {
    assert_eq!(baseline_for(Some(sample()), "boot".to_string(), 42), sample());
    let fresh = Baseline { boot_id: "boot".to_string(), pid: 43, tasks: vec![] };
    assert_eq!(baseline_for(Some(sample()), "boot".to_string(), 43), fresh);
    let other = Baseline { boot_id: "next".to_string(), pid: 42, tasks: vec![] };
    assert_eq!(baseline_for(Some(sample()), "next".to_string(), 42), other);
    assert_eq!(baseline_for(None, "next".to_string(), 42), other);
    assert!(restore_applies(&sample(), "boot", Some(42)));
    assert!(!restore_applies(&sample(), "boot", None));
    assert!(!restore_applies(&sample(), "boot", Some(41)));
    assert!(!restore_applies(&sample(), "other", Some(42)));
}

#[test]
fn a_thread_is_recorded_once_with_its_first_nice_value() {
    let mut b = sample();
    assert!(!record_task(&mut b, 43, -10));
    assert_eq!(b, sample());
    assert!(record_task(&mut b, 40, 5));
    assert!(record_task(&mut b, 50, -2));
    assert_eq!(b.tasks, vec![(40, 5), (42, 0), (43, -16), (50, -2)]);
}

#[test]
fn real_time_and_already_raised_threads_are_left_alone() {
    assert!(needs_raise(TaskStat { nice: 0, policy: 0 }));
    assert!(needs_raise(TaskStat { nice: -9, policy: 3 }));
    assert!(!needs_raise(TaskStat { nice: -10, policy: 0 }));
    assert!(!needs_raise(TaskStat { nice: -20, policy: 0 }));
    for policy in [1, 2, 6] {
        assert!(!needs_raise(TaskStat { nice: 5, policy }));
    }
    assert!(needs_restore(TaskStat { nice: -10, policy: 1 }));
    assert!(!needs_restore(TaskStat { nice: -9, policy: 0 }));
}

#[test]
fn a_pass_reports_its_count_or_its_failures() {
    let mut t = Tally::new();
    t.note(10, None, true);
    t.note(11, None, false);
    t.note(12, Some("gone"), false);
    assert_eq!(raise_outcome(&t), Ok(PriorityChange { adjusted: 2, restored: 0 }));
    assert_eq!(restore_outcome(&t), Ok(PriorityChange { adjusted: 0, restored: 2 }));
    t.note(13, Some("Operation not permitted"), true);
    t.note(14, Some("denied"), true);
    assert_eq!(
        raise_outcome(&t),
        Err("cannot raise audioserver thread priority: 13: Operation not permitted, 14: denied".to_string())
    );
    assert_eq!(
        restore_outcome(&t),
        Err("cannot restore audioserver thread priority: 13: Operation not permitted, 14: denied".to_string())
    );
}

#[test]
fn the_marker_and_the_pid_file_are_read_trimmed() {
    assert!(enabled_marker("1\n"));
    assert!(enabled_marker("  1 "));
    assert!(!enabled_marker("0\n"));
    assert!(!enabled_marker("11"));
    assert_eq!(read_pid("1234\n"), Some(1234));
    assert_eq!(read_pid("x"), None);
    assert_eq!(read_pid(""), None);
}

#[test]
fn the_monitor_is_recognised_by_its_argument() {
    assert!(is_watch_process(b"/data/adb/usbsrctl\0_audioserver-priority-watch\0"));
    assert!(is_watch_process(b"_audioserver-priority-watch"));
    assert!(!is_watch_process(b"/data/adb/usbsrctl\0_audioserver-priority-watcher\0"));
    assert!(!is_watch_process(b"x_audioserver-priority-watch\0"));
    assert!(!is_watch_process(b""));
    assert!(is_legacy_watch_process(b"/system/bin/sh\0/data/adb/modules/x/audioserver-priority.sh\0watch\0"));
    assert!(!is_legacy_watch_process(b"/system/bin/sh\0/data/adb/modules/x/audioserver-priority.sh\0stop\0"));
    assert!(!is_legacy_watch_process(b"sh\0audioserver-priority.sh.bak\0watch\0"));
}

#[test]
fn the_priority_lock_is_waited_for_only_while_an_operation_runs() {
    assert_eq!(lock_refusal("another audio operation is still running"), None);
    assert_eq!(
        lock_refusal("cannot open lock"),
        Some("cannot lock audioserver priority state: cannot open lock".to_string())
    );
}

#[test]
fn the_monitor_steps() {
    assert_eq!(watch_step(false, true, true), WatchStep::Stop);
    assert_eq!(watch_step(true, true, false), WatchStep::Reconcile);
    assert_eq!(watch_step(true, false, true), WatchStep::Reconcile);
    assert_eq!(watch_step(true, false, false), WatchStep::Idle);
    assert_eq!(watch_interval_ms(true), 2000);
    assert_eq!(watch_interval_ms(false), 5000);
    assert_eq!(start_step(false, false, Some(true)), StartStep::NotNeeded);
    assert_eq!(start_step(true, false, Some(true)), StartStep::Running);
    assert_eq!(start_step(false, true, Some(false)), StartStep::Spawn { remove_stale_pid: true });
    assert_eq!(start_step(true, true, None), StartStep::Spawn { remove_stale_pid: false });
}

#[test]
fn the_setting_report_lists_the_change() {
    assert_eq!(
        priority_setting_report(true, PriorityChange { adjusted: 3, restored: 0 }),
        "audioserver_priority=1\naudioserver_priority_target=-10\naudioserver_priority_adjusted=3\naudioserver_priority_restored=0\n"
    );
    assert_eq!(
        priority_setting_report(false, PriorityChange { adjusted: 0, restored: 7 }),
        "audioserver_priority=0\naudioserver_priority_target=-10\naudioserver_priority_adjusted=0\naudioserver_priority_restored=7\n"
    );
}
