use usbsrctl::capabilities::DeviceCapabilities;
use usbsrctl::catalog::{BLUETOOTH_HAL_OPTIONS, JITTER_FEATURES, RESAMPLER_PRESET_NAMES};
use usbsrctl::cli::parse_extra_action;
use usbsrctl::domain::{Action, ExtraAction, ReapplyAction, Settings, StoredSettings};
use usbsrctl::reapply::{build_reapply_plan, filter_reapply_plan};
use usbsrctl::scripts::{
    extra_command_summary, extras_path, policy_command_summary, reapply_command_summaries,
    render_cleanup_script, render_extra_restart_script, render_extra_script,
    render_extra_status_script, render_policy_script, render_reapply_script,
    render_reapply_verifications, shell_quote, upstream_args, validate_settings, ModuleFiles,
};
use usbsrctl::state::render_stored_settings;
use usbsrctl::state_file::parse_stored_settings;

const MODULE: &str = "/data/adb/modules/usb_samplerate_changer";

fn all_files() -> ModuleFiles {
    ModuleFiles { dynamic_template: true, template: true, upstream_script: true }
}

fn extra(args: &[&str]) -> ExtraAction {
    parse_extra_action(&args.iter().map(|value| (*value).to_string()).collect::<Vec<_>>()).unwrap()
}

fn count(haystack: &str, needle: &str) -> usize {
    haystack.matches(needle).count()
}

fn upstream_settings() -> Settings {
    Settings {
        policy: "offload-direct".to_string(),
        sample_rate: 96_000,
        bit_depth: "24".to_string(),
        drc: true,
        force_usbv2: true,
        force_bluetooth_qti: true,
        amzm: false,
        test: false,
        test_template: None,
    }
}

#[test]
fn tests_renders_all_upstream_flags_in_a_guarded_script() {
    let script = render_policy_script(&upstream_settings(), MODULE, Action::Apply);
    assert!(script.contains("readlink /proc/self/ns/mnt"));
    assert!(script.contains("/core/USB_SampleRate_Changer.sh"));
    assert!(script.contains("--offload-direct"));
    assert!(script.contains("--drc"));
    assert!(script.contains("--force-usbv2"));
    assert!(script.contains("--force-bluetooth-qti"));
    assert!(script.contains("'96000' '24'"));
    assert!(script.contains("reload-audio-servers.sh"));
}

#[test]
fn main_renders_all_upstream_flags_in_a_guarded_script() {
    let script = render_policy_script(&upstream_settings(), MODULE, Action::Apply);
    assert!(script.contains("readlink /proc/self/ns/mnt"));
    assert!(script.contains("--offload-direct"));
    assert!(script.contains("--drc"));
    assert!(script.contains("--force-usbv2"));
    assert!(script.contains("--force-bluetooth-qti"));
    assert!(script.contains("'96000' '24'"));
}

#[test]
fn tests_rejects_conflicting_template_modes() {
    let settings = Settings {
        amzm: true,
        test: true,
        test_template: Some("offload_template.xml".to_string()),
        ..Settings::default()
    };
    assert!(validate_settings(&settings, MODULE, &all_files()).is_err());
}

#[test]
fn main_rejects_conflicting_template_modes() {
    let settings = Settings {
        amzm: true,
        test: true,
        test_template: Some("offload_template.xml".to_string()),
        ..Settings::default()
    };
    assert!(validate_settings(&settings, MODULE, &all_files()).is_err());
}

#[test]
fn tests_quotes_single_quotes_for_shell() {
    assert_eq!(shell_quote("a'b"), "'a'\"'\"'b'");
}

#[test]
fn main_quotes_single_quotes_for_shell() {
    assert_eq!(shell_quote("a'b"), "'a'\"'\"'b'");
}

#[test]
fn tests_reset_has_no_configuration_arguments() {
    assert_eq!(upstream_args(&Settings::default(), Action::Reset), ["--reset"]);
}

#[test]
fn main_reset_has_no_configuration_arguments() {
    assert_eq!(upstream_args(&Settings::default(), Action::Reset), ["--reset"]);
}

#[test]
fn uninstall_cleanup_runs_all_fixed_resets_and_restarts_once() {
    let (script, commands) = render_cleanup_script(MODULE, true, true);
    for (label, needle) in [
        ("bluetooth-hal", "change-bluetooth-hal.sh"),
        ("resampler", "change-resampling-quality.sh"),
        ("usb-period", "change-usb-period.sh"),
        ("jitter", "jitter-reducer.sh"),
        ("policy", "USB_SampleRate_Changer.sh"),
    ] {
        assert!(script.contains(&format!("cleanup_step_started={label}")));
        assert!(script.contains(needle));
    }
    assert!(script.contains("'++all' '++battery' '++effect' '--status'"));
    assert!(script.contains("change-bluetooth-hal.sh' '--reset'"));
    assert!(script.contains("USB_SampleRate_Changer.sh' '--reset'"));
    assert_eq!(count(&script, "cleanup_restart_started=1"), 1);
    assert_eq!(count(&script, "reload-audio-servers.sh"), 1);
    assert!(script.contains("reload-audio-servers.sh' '--bluetooth-hal' 'reset'"));
    assert_eq!(commands.len(), 6);
    assert!(script.contains("cleanup_failure=0"));
    assert!(script.contains("exit \"$cleanup_failure\""));
    assert!(!script.contains("settings.conf"));
}

#[test]
fn extras_use_the_global_namespace_guard_as_policy() {
    let action = extra(&["usb-period", "status"]);
    let script = render_extra_script(&extras_path(MODULE, action.script()), &action);
    assert!(script.contains("readlink /proc/self/ns/mnt"));
    assert!(script.contains("readlink /proc/1/ns/mnt"));
    assert!(script.contains("global mount namespace mismatch"));
    assert!(!script.contains("/proc/$audio_pid/ns/mnt"));
    assert!(script.contains("exec '/system/bin/sh'"));
    assert!(!script.contains("USB_SR_DEFER_AUDIO_RESTART"));
    assert!(!script.contains("USB_SR_RESTART_INTERFACE"));
}

#[test]
fn mutating_extra_runs_restart_and_post_status_query() {
    let action = extra(&["usb-period", "2250"]);
    let path = extras_path(MODULE, action.script());
    let business = render_extra_script(&path, &action);
    let restart = render_extra_restart_script(&path, &action).unwrap();
    let status = render_extra_status_script(&path, &action).unwrap();
    assert!(!business.contains("reload-audio-servers.sh"));
    assert!(!business.contains("--status"));
    assert!(restart.contains("reload-audio-servers.sh"));
    assert!(status.contains("--status"));
}

#[test]
fn reapply_builds_deduplicated_extra_verifications_after_restart() {
    let plan = vec![
        ReapplyAction::Policy(Settings::default()),
        ReapplyAction::Extra(extra(&["resampler", "179-408-99"])),
        ReapplyAction::Extra(extra(&["usb-period", "2250"])),
        ReapplyAction::Extra(extra(&["jitter", "enable", "effect"])),
    ];
    let verifications = render_reapply_verifications(&plan, MODULE);
    assert_eq!(verifications.len(), 3);
    assert_eq!(
        verifications.iter().map(|step| step.label.as_str()).collect::<Vec<_>>(),
        vec!["resampler", "usb-period", "jitter"]
    );
    assert!(verifications.iter().all(|step| step.script.contains("--status")));
    assert!(verifications.iter().all(|step| !step.script.contains("USB_SampleRate_Changer.sh")));
}

#[test]
fn command_summaries_include_business_arguments_and_reapply_order() {
    let settings = Settings {
        policy: "offload-direct".to_string(),
        sample_rate: 96_000,
        bit_depth: "24".to_string(),
        ..Settings::default()
    };
    let policy = policy_command_summary(&settings, MODULE, Action::Apply);
    assert!(policy.contains("USB_SampleRate_Changer.sh"));
    assert!(policy.contains("--offload-direct") && policy.contains("'96000' '24'"));

    let extra_action = extra(&["usb-period", "2250"]);
    let summary = extra_command_summary(&extras_path(MODULE, extra_action.script()), &extra_action);
    assert!(summary.contains("change-usb-period.sh") && summary.ends_with("'2250'"));

    let commands = reapply_command_summaries(
        &vec![ReapplyAction::Policy(settings), ReapplyAction::Extra(extra_action)],
        MODULE,
    );
    assert_eq!(commands.len(), 4);
    assert!(commands[0].contains("USB_SampleRate_Changer.sh"));
    assert!(commands[1].contains("change-usb-period.sh"));
    assert!(commands[2].contains("reload-audio-servers.sh"));
    assert!(commands[3].contains("change-usb-period.sh"));
    assert!(commands[3].contains("--status"));
}

#[test]
fn reapply_batch_defers_and_coalesces_audio_restarts() {
    let plan = vec![
        ReapplyAction::Extra(extra(&["bluetooth-hal", "offload"])),
        ReapplyAction::Policy(Settings::default()),
        ReapplyAction::Extra(extra(&["resampler", "179-408-99"])),
        ReapplyAction::Extra(extra(&["usb-period", "2250"])),
        ReapplyAction::Extra(extra(&["jitter", "enable", "effect"])),
    ];
    let script = render_reapply_script(&plan, MODULE);
    assert!(!script.contains("USB_SR_DEFER_AUDIO_RESTART"));
    assert!(!script.contains("USB_SR_RESTART_INTERFACE"));
    assert!(script.contains("reload-audio-servers.sh"));
    assert!(script.contains("'--bluetooth-hal' 'offload'"));
    assert_eq!(count(&script, "batch_restart=audioserver"), 1);
    assert!(script.contains("batch_step=1:bluetooth-hal"));
    assert!(script.contains("batch_step=5:jitter"));
    assert!(script.contains("batch_step_started=1"));
    assert!(script.contains("batch_step_exit=1:$step_status"));
    assert!(script.contains("batch_restart_started=1"));
    assert!(script.contains("batch_restart_exit='$?"));
}

#[test]
fn non_audio_reapply_batch_does_not_restart_audioserver() {
    let plan = vec![ReapplyAction::Extra(extra(&["jitter", "enable", "thermal"]))];
    let script = render_reapply_script(&plan, MODULE);
    assert!(!script.contains("USB_SR_DEFER_AUDIO_RESTART"));
    assert!(!script.contains("USB_SR_RESTART_INTERFACE"));
    assert!(!script.contains("reload-audio-servers.sh"));
    assert!(script.contains("batch_restart=not-required"));
}

#[test]
fn dynamic_direct_uses_dedicated_generator_for_apply_and_reapply() {
    let settings = Settings {
        policy: "offload-direct-dynamic".into(),
        sample_rate: 48000,
        bit_depth: "24".into(),
        ..Settings::default()
    };
    let script = render_policy_script(&settings, MODULE, Action::Apply);
    assert!(script.contains("'_dynamic-direct' '--policy' 'offload-direct-dynamic'"));
    assert!(!script.contains("core/USB_SampleRate_Changer.sh"));
    assert!(script.contains("reload-audio-servers.sh"));
    let plan = vec![ReapplyAction::Policy(settings.clone())];
    assert!(reapply_command_summaries(&plan, MODULE)[0].contains("'_dynamic-direct'"));
    let reset = render_policy_script(&settings, MODULE, Action::Reset);
    assert!(reset.contains("core/USB_SampleRate_Changer.sh") && reset.contains("'--reset'"));
    assert!(!reset.contains("'--all'"));
    assert!(!render_policy_script(&Settings::default(), MODULE, Action::Reset).contains("'--all'"));
    let stored = StoredSettings { policy: settings, policy_configured: true, ..StoredSettings::default() };
    assert_eq!(
        parse_stored_settings(&render_stored_settings(&stored)).policy.policy,
        "offload-direct-dynamic"
    );
}

#[test]
fn limited_reapply_skips_legacy_actions_and_keeps_every_jitter_feature() {
    let caps = DeviceCapabilities::limited("aidl", "test");
    let mut stored = StoredSettings {
        auto_reapply: true,
        policy_configured: true,
        bluetooth_hal_configured: true,
        usb_period_configured: true,
        resampler_configured: true,
        ..StoredSettings::default()
    };
    for feature in JITTER_FEATURES {
        stored.set_jitter_configured(feature, true);
        stored.set_jitter_value(feature, true);
    }
    let saved = stored.clone();
    let full = build_reapply_plan(&stored);
    let plan = filter_reapply_plan(full.clone(), &caps);
    assert_eq!(plan.len(), 1 + JITTER_FEATURES.len());
    assert!(matches!(&plan[0], ReapplyAction::Extra(ExtraAction::ResamplerPreset { .. })));
    for feature in JITTER_FEATURES {
        assert!(plan.iter().any(|action| matches!(action, ReapplyAction::Extra(ExtraAction::JitterSet { feature: name, .. }) if name == feature)));
    }
    assert_eq!(saved, stored);
    assert_eq!(filter_reapply_plan(full.clone(), &DeviceCapabilities::from_evidence(true, Some(""))), full);
    let commands = reapply_command_summaries(&plan, MODULE).join("\n");
    assert!(!commands.contains("change-usb-period.sh"));
    assert!(!commands.contains("change-bluetooth-hal.sh"));
    assert!(!commands.contains("USB_SampleRate_Changer.sh"));
    assert!(commands.contains("'--effect'"));
}

#[test]
fn limited_capabilities_block_writes_but_allow_managed_cleanup_and_all_jitter() {
    let caps = DeviceCapabilities::limited("aidl", "test");
    assert!(caps.require_policy().is_err());
    for mode in BLUETOOTH_HAL_OPTIONS {
        assert!(!caps.allows_extra(&extra(&["bluetooth-hal", mode])));
    }
    assert!(!caps.allows_extra(&extra(&["usb-period", "2250"])));
    assert!(caps.allows_extra(&extra(&["usb-period", "reset"])));
    for feature in JITTER_FEATURES.iter().chain(["all"].iter()) {
        for mode in ["enable", "disable"] {
            assert!(caps.allows_extra(&extra(&["jitter", mode, feature])));
        }
    }
    for preset in RESAMPLER_PRESET_NAMES {
        assert!(caps.allows_extra(&extra(&["resampler", preset])));
    }
    let script = render_policy_script(&Settings::default(), MODULE, Action::Reset);
    assert!(script.contains("'--reset'"));
    assert!(!script.contains("'--all'"));
}

#[test]
fn aidl_resampler_and_effect_use_only_the_default_audio_restart() {
    let caps = DeviceCapabilities::limited("aidl", "test");
    let mut actions = vec![
        extra(&["resampler", "reset"]),
        extra(&["resampler", "179-408-99"]),
        extra(&["resampler", "custom", "none", "cheat", "179", "408", "99"]),
        extra(&["jitter", "enable", "effect"]),
        extra(&["jitter", "disable", "all"]),
    ];
    let restart_path = extras_path(MODULE, "reload-audio-servers.sh");
    let expected = format!("'/system/bin/sh' {}", shell_quote(&restart_path));
    for action in &actions {
        assert!(caps.allows_extra(action));
        let script = extras_path(MODULE, action.script());
        let restart = render_extra_restart_script(&script, action).unwrap();
        assert!(restart.ends_with(&format!("exec {expected}\n")));
        assert!(!restart.contains("--all"));
        assert!(!restart.contains("--bluetooth-hal"));
    }
    for feature in JITTER_FEATURES.iter().filter(|name| **name != "effect") {
        let action = extra(&["jitter", "enable", feature]);
        assert!(!action.requires_audio_restart());
    }
    actions.retain(|action| !matches!(action, ExtraAction::JitterSet { feature, .. } if feature == "all"));
    let plan = actions.into_iter().map(ReapplyAction::Extra).collect::<Vec<_>>();
    let commands = reapply_command_summaries(&plan, MODULE);
    assert_eq!(
        commands.iter().filter(|command| command.contains("reload-audio-servers.sh")).collect::<Vec<_>>(),
        vec![&expected]
    );
}

#[test]
fn limited_uninstall_preserves_hal_restrictions_and_restarts_once() {
    for cleanup_policy in [false, true] {
        let (script, commands) = render_cleanup_script(MODULE, false, cleanup_policy);
        assert!(!script.contains("change-bluetooth-hal.sh"));
        assert!(!script.contains("change-usb-period.sh"));
        assert!(!script.contains("--bluetooth-hal"));
        assert!(!script.contains("'--all'"));
        assert!(script.contains("change-resampling-quality.sh"));
        assert!(script.contains("'++all' '++battery' '++effect' '--status'"));
        assert_eq!(script.contains("USB_SampleRate_Changer.sh"), cleanup_policy);
        assert_eq!(count(&script, "reload-audio-servers.sh"), 1);
        assert_eq!(commands.len(), if cleanup_policy { 4 } else { 3 });
    }
}

#[test]
fn missing_upstream_script_is_reported_with_its_path() {
    let files = ModuleFiles { dynamic_template: true, template: true, upstream_script: false };
    let error = validate_settings(&Settings::default(), MODULE, &files).unwrap_err();
    assert_eq!(
        error,
        "upstream script not found: /data/adb/modules/usb_samplerate_changer/core/USB_SampleRate_Changer.sh"
    );
    assert!(validate_settings(&Settings::default(), MODULE, &all_files()).is_ok());
}

#[test]
fn a_restart_script_follows_exactly_the_actions_that_need_a_restart() {
    for args in [
        &["resampler", "status"][..],
        &["usb-period", "status"][..],
        &["jitter", "status"][..],
        &["diagnose", "audio"][..],
        &["bluetooth-hal", "status"][..],
        &["jitter", "enable", "io"][..],
        &["resampler", "reset"][..],
        &["bluetooth-hal", "aosp"][..],
        &["jitter", "disable", "all"][..],
    ] {
        let action = extra(args);
        let script = extras_path(MODULE, action.script());
        let restart = render_extra_restart_script(&script, &action);
        assert_eq!(restart.is_some(), action.requires_audio_restart(), "{args:?}");
    }
    let hal = extra(&["bluetooth-hal", "aosp"]);
    let restart = render_extra_restart_script(&extras_path(MODULE, hal.script()), &hal).unwrap();
    assert!(restart.contains("'--bluetooth-hal' 'aosp'"));
}

#[test]
fn an_accepted_policy_meets_every_check() {
    let mut settings = Settings::default();
    assert!(validate_settings(&settings, MODULE, &all_files()).is_ok());
    settings.amzm = true;
    settings.test = true;
    settings.test_template = Some("custom.xml".to_string());
    assert!(validate_settings(&settings, MODULE, &all_files()).is_err());
    settings.amzm = false;
    assert!(validate_settings(&settings, MODULE, &all_files()).is_ok());
    for template in ["", "/abs.xml", "a/../b.xml", "a//b.xml", "./a.xml", "a.txt", "a b.xml", "offload_direct_dynamic_template.xml"] {
        settings.test_template = Some(template.to_string());
        assert!(validate_settings(&settings, MODULE, &all_files()).is_err(), "{template}");
    }
    settings.test_template = Some("custom.xml".to_string());
    let missing = ModuleFiles { dynamic_template: true, template: false, upstream_script: true };
    assert_eq!(
        validate_settings(&settings, MODULE, &missing).unwrap_err(),
        "template does not exist: custom.xml"
    );
    settings.sample_rate = 44_099;
    assert!(validate_settings(&settings, MODULE, &all_files()).is_err());
}
