use usbsrctl::catalog::JITTER_FEATURES;
use usbsrctl::cli::parse_extra_action;
use usbsrctl::domain::{ExtraAction, ReapplyAction, StoredSettings};
use usbsrctl::reapply::build_reapply_plan;
use usbsrctl::state::{render_stored_settings, update_stored_settings_for_extra};
use usbsrctl::state::StateDelta;
use usbsrctl::state_file::{
    parse_stored_settings, parse_stored_settings_checked, plan_update, LoadOutcome, StateHealth,
    StateSnapshot,
};

fn extra(args: &[&str]) -> ExtraAction {
    parse_extra_action(&args.iter().map(|value| (*value).to_string()).collect::<Vec<_>>()).unwrap()
}

#[test]
fn stored_settings_round_trip_all_persisted_values() {
    let mut settings = StoredSettings {
        policy_configured: true,
        bluetooth_hal: "aosp".to_string(),
        bluetooth_hal_configured: true,
        resampler_preset: "custom".to_string(),
        resampler_configured: true,
        resampler_bypass: "96".to_string(),
        resampler_stop_band: 194,
        resampler_half_length: 520,
        resampler_percent: 98,
        usb_period: 1_000,
        usb_period_configured: true,
        io_scheduler: "bfq".to_string(),
        io_tone: "boost".to_string(),
        auto_reapply: true,
        ..StoredSettings::default()
    };
    settings.policy.policy = "usb".to_string();
    settings.set_jitter_value("io", true);
    settings.set_jitter_configured("io", true);

    assert_eq!(parse_stored_settings(&render_stored_settings(&settings)), settings);
}

#[test]
fn legacy_settings_are_treated_as_an_applied_policy() {
    let settings = parse_stored_settings("version=2\npolicy=usb\nsample_rate=96000\nbit_depth=24\n");
    assert!(settings.policy_configured);
    assert_eq!(settings.policy.policy, "usb");
    assert_eq!(settings.policy.sample_rate, 96_000);
    assert_eq!(settings.policy.bit_depth, "24");
}

#[test]
fn extra_updates_every_tool_and_tuning_selection() {
    let mut settings = StoredSettings::default();
    let policy = settings.policy.clone();
    assert!(update_stored_settings_for_extra(&mut settings, &extra(&["bluetooth-hal", "aosp"])));
    assert!(settings.bluetooth_hal_configured);
    assert_eq!(settings.bluetooth_hal, "aosp");

    assert!(update_stored_settings_for_extra(&mut settings, &extra(&["bluetooth-hal", "reset"])));
    assert!(!settings.bluetooth_hal_configured);
    assert_eq!(settings.bluetooth_hal, StoredSettings::default().bluetooth_hal);

    assert!(update_stored_settings_for_extra(
        &mut settings,
        &extra(&["resampler", "custom", "96", "cheat", "194", "520", "98"])
    ));
    assert!(settings.resampler_configured);
    assert_eq!(settings.resampler_preset, "custom");
    assert_eq!(settings.resampler_bypass, "96");
    assert_eq!(settings.resampler_stop_band, 194);
    assert_eq!(settings.resampler_half_length, 520);
    assert_eq!(settings.resampler_percent, 98);
    assert_eq!(settings.policy, policy);

    assert!(update_stored_settings_for_extra(&mut settings, &extra(&["resampler", "default"])));
    assert_eq!(settings.resampler_preset, "179-408-99");

    assert!(update_stored_settings_for_extra(&mut settings, &extra(&["usb-period", "1000"])));
    assert!(settings.usb_period_configured);
    assert_eq!(settings.usb_period, 1_000);

    assert!(update_stored_settings_for_extra(&mut settings, &extra(&["diagnose", "alsa", "all"])));
    assert_eq!(settings.diagnostic, "alsa");
    assert!(settings.diagnostic_all);

    assert!(update_stored_settings_for_extra(
        &mut settings,
        &extra(&["jitter", "enable", "io", "bfq", "boost"])
    ));
    assert_eq!(settings.jitter_value("io"), Some(true));
    assert_eq!(settings.jitter_is_configured("io"), Some(true));
    assert_eq!(settings.io_scheduler, "bfq");
    assert_eq!(settings.io_tone, "boost");

    assert!(update_stored_settings_for_extra(
        &mut settings,
        &extra(&["jitter", "enable", "wifi", "no-restart"])
    ));
    assert_eq!(settings.jitter_value("wifi"), Some(true));
    assert!(settings.wifi_no_restart);

    assert!(update_stored_settings_for_extra(&mut settings, &extra(&["jitter", "disable", "battery"])));
    assert_eq!(settings.jitter_value("battery"), Some(false));
    assert_eq!(settings.jitter_is_configured("battery"), Some(true));

    assert!(update_stored_settings_for_extra(&mut settings, &extra(&["resampler", "reset"])));
    assert!(!settings.resampler_configured);
    assert!(update_stored_settings_for_extra(&mut settings, &extra(&["usb-period", "reset"])));
    assert!(!settings.usb_period_configured);
    assert!(update_stored_settings_for_extra(&mut settings, &extra(&["jitter", "disable", "all"])));
    for feature in JITTER_FEATURES {
        assert_eq!(settings.jitter_value(feature), Some(false));
        assert_eq!(settings.jitter_is_configured(feature), Some(false));
    }
}

#[test]
fn reapply_plan_replays_only_applied_values_in_dependency_order() {
    let mut settings = StoredSettings {
        bluetooth_hal: "aosp".to_string(),
        bluetooth_hal_configured: true,
        policy_configured: true,
        resampler_preset: "custom".to_string(),
        resampler_configured: true,
        resampler_bypass: "96".to_string(),
        resampler_stop_band: 194,
        resampler_half_length: 520,
        resampler_percent: 98,
        usb_period: 1_000,
        usb_period_configured: true,
        io_scheduler: "bfq".to_string(),
        io_tone: "boost".to_string(),
        diagnostic: "alsa".to_string(),
        ..StoredSettings::default()
    };
    settings.policy.policy = "usb".to_string();
    settings.set_jitter_value("thermal", false);
    settings.set_jitter_configured("thermal", true);
    settings.set_jitter_value("io", true);
    settings.set_jitter_configured("io", true);

    assert!(build_reapply_plan(&settings).is_empty());
    settings.auto_reapply = true;
    assert_eq!(
        build_reapply_plan(&settings),
        vec![
            ReapplyAction::Extra(ExtraAction::BluetoothHal { action: "aosp".into() }),
            ReapplyAction::Policy(settings.policy.clone()),
            ReapplyAction::Extra(ExtraAction::ResamplerCustom {
                bypass: "96".into(),
                cheat: true,
                stop_band: 194,
                half_length: 520,
                percent: 98,
            }),
            ReapplyAction::Extra(ExtraAction::UsbPeriodSet { period: 1_000 }),
            ReapplyAction::Extra(ExtraAction::JitterSet {
                enabled: false,
                feature: "thermal".into(),
                scheduler: None,
                tone: None,
                wifi_no_restart: false,
            }),
            ReapplyAction::Extra(ExtraAction::JitterSet {
                enabled: true,
                feature: "io".into(),
                scheduler: Some("bfq".into()),
                tone: Some("boost".into()),
                wifi_no_restart: false,
            }),
        ]
    );
}

#[test]
fn default_state_round_trips_and_keeps_an_empty_template() {
    let settings = StoredSettings::default();
    let rendered = render_stored_settings(&settings);
    assert!(rendered.contains("test_template=\n"));
    assert!(rendered.starts_with("version=3\n"));
    assert_eq!(parse_stored_settings(&rendered), settings);
}

fn snapshot(health: StateHealth) -> StateSnapshot {
    StateSnapshot { settings: StoredSettings::default(), health, migrated_from: None, recovery_reason: None }
}

#[test]
fn a_degraded_state_refuses_every_change_but_a_policy_reset() {
    let degraded = || snapshot(StateHealth::Degraded("invalid sample_rate".to_string()));
    match plan_update(degraded(), &StateDelta::SetAutoReapply(true)) {
        Err(e) => assert_eq!(e, "state is degraded: invalid sample_rate"),
        Ok(_) => panic!("a degraded state accepted a change"),
    }
    match plan_update(degraded(), &StateDelta::Extra(extra(&["usb-period", "2250"]))) {
        Err(e) => assert!(e.starts_with("state is degraded: ")),
        Ok(_) => panic!("a degraded state accepted a change"),
    }
    assert!(plan_update(degraded(), &StateDelta::PolicyReset).is_ok());
    assert!(plan_update(snapshot(StateHealth::Healthy), &StateDelta::SetAutoReapply(true)).is_ok());
}

#[test]
fn state_versions_are_read_by_their_version_line() {
    let current = render_stored_settings(&StoredSettings::default());
    assert!(matches!(parse_stored_settings_checked(&current), Ok(LoadOutcome::Current(_))));
    let twice = format!("version=3\n{current}");
    assert_eq!(parse_stored_settings_checked(&twice).map(|_| ()), Err("duplicate state key: version".to_string()));
    assert_eq!(
        parse_stored_settings_checked("version=7\n").map(|_| ()),
        Err("unsupported state version: 7".to_string())
    );
    assert!(matches!(
        parse_stored_settings_checked("policy=offload\n"),
        Ok(LoadOutcome::Rewrite { migrated_from: None, recovery_reason: Some(_), .. })
    ));
    assert!(matches!(
        parse_stored_settings_checked("version=2\npolicy=offload\n"),
        Ok(LoadOutcome::Rewrite { migrated_from: Some(2), recovery_reason: None, .. })
    ));
}

#[test]
fn every_state_read_holds_one_flag_per_jitter_feature() {
    for content in ["", "version=2\n", "policy=offload\n", "garbage"] {
        let settings = parse_stored_settings(content);
        assert_eq!(settings.jitter_values.len(), JITTER_FEATURES.len());
        assert_eq!(settings.jitter_configured.len(), JITTER_FEATURES.len());
    }
    let mut settings = StoredSettings::default();
    assert_eq!(settings.jitter_values.len(), 11);
    update_stored_settings_for_extra(&mut settings, &extra(&["jitter", "enable", "all"]));
    assert_eq!(settings.jitter_values.len(), 11);
    assert_eq!(settings.jitter_configured.len(), 11);
}

#[test]
fn a_written_state_starts_with_its_version_and_one_line_per_key() {
    let mut settings = StoredSettings::default();
    settings.resampler_preset = "default".to_string();
    let text = render_stored_settings(&settings);
    assert!(text.starts_with("version=3\n"));
    assert!(text.ends_with('\n'));
    assert_eq!(text.lines().count(), 50);
    assert!(text.contains("\ntest_template=\n"));
}

#[test]
fn a_reset_degraded_state_is_written_as_a_current_state() {
    let degraded = snapshot(StateHealth::Degraded("invalid sample_rate".to_string()));
    let (reset, changed) = match plan_update(degraded, &StateDelta::PolicyReset) {
        Ok(x) => x,
        Err(e) => panic!("{e}"),
    };
    assert!(changed);
    let written = render_stored_settings(&reset.settings);
    assert!(written.starts_with("version=3\n"));
    assert!(matches!(parse_stored_settings_checked(&written), Ok(LoadOutcome::Current(_))));
}
