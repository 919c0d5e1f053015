use usbsrctl::cli::{
    normalize_sample_rate, parse, parse_custom_resampler, parse_diagnostic_action, parse_extra_action,
    parse_jitter_action, parse_settings_args, ControllerCommand,
};
use usbsrctl::domain::{ExtraAction, ReapplyAction, Settings};
use usbsrctl::entry::{internal_command, operation_not_started_fields, operation_preflight, state_preflight, InternalCommand};
use usbsrctl::operation::{classify_operation_result, render_operation_contract, OperationKind, OperationResult, OperationState};

fn words(args: &[&str]) -> Vec<String> {
    args.iter().map(|value| (*value).to_string()).collect()
}

fn extra(args: &[&str]) -> ExtraAction {
    parse_extra_action(&words(args)).unwrap()
}

#[test]
fn tests_normalizes_every_documented_alias_family() {
    assert_eq!(normalize_sample_rate("44.1k").unwrap(), 44_100);
    assert_eq!(normalize_sample_rate("353k").unwrap(), 352_800);
    assert_eq!(normalize_sample_rate("706k").unwrap(), 705_600);
    assert_eq!(normalize_sample_rate("123456").unwrap(), 123_456);
    assert!(normalize_sample_rate("44099").is_err());
    assert!(normalize_sample_rate("768001").is_err());
}

#[test]
fn main_normalizes_every_documented_alias_family() {
    assert_eq!(normalize_sample_rate("44.1k").unwrap(), 44_100);
    assert_eq!(normalize_sample_rate("353k").unwrap(), 352_800);
    assert_eq!(normalize_sample_rate("706k").unwrap(), 705_600);
    assert_eq!(normalize_sample_rate("123456").unwrap(), 123_456);
    assert!(normalize_sample_rate("44099").is_err());
    assert!(normalize_sample_rate("768001").is_err());
}

#[test]
fn tests_parses_complete_controller_configuration() {
    let args = words(&[
        "--policy",
        "offload-direct",
        "--sample-rate",
        "96k",
        "--bit-depth",
        "float",
        "--drc",
        "--force-usbv2",
        "--force-bluetooth-qti",
    ]);
    let parsed = parse_settings_args(&args).unwrap();
    assert_eq!(parsed.policy, "offload-direct");
    assert_eq!(parsed.sample_rate, 96_000);
    assert_eq!(parsed.bit_depth, "float");
    assert!(parsed.drc && parsed.force_usbv2 && parsed.force_bluetooth_qti);
}

#[test]
fn main_parses_complete_controller_configuration() {
    let args = words(&[
        "--policy",
        "offload-direct",
        "--sample-rate",
        "96k",
        "--bit-depth",
        "float",
        "--drc",
        "--force-usbv2",
        "--force-bluetooth-qti",
    ]);
    let parsed = parse_settings_args(&args).unwrap();
    assert_eq!(parsed.policy, "offload-direct");
    assert_eq!(parsed.sample_rate, 96_000);
    assert_eq!(parsed.bit_depth, "float");
    assert!(parsed.drc && parsed.force_usbv2 && parsed.force_bluetooth_qti);
}

#[test]
fn mutation_preflight_errors_have_machine_readable_not_started_fields() {
    let mutation = operation_preflight(&words(&["usbsrctl", "extra", "resampler", "invalid"])).unwrap();
    assert_eq!(
        operation_not_started_fields(&mutation),
        "controller_action=extra-resampler\noperation_kind=mutation\noperation_result=not_started\noperation_applied=0\noperation_state=not_started\n"
    );
    let query = operation_preflight(&words(&["usbsrctl", "extra", "resampler", "status", "unexpected"])).unwrap();
    assert_eq!(
        operation_not_started_fields(&query),
        "controller_action=extra-resampler\noperation_kind=query\noperation_result=not_started\noperation_applied=0\n"
    );
    assert!(operation_preflight(&words(&["usbsrctl", "schema"])).is_none());
    let settings = operation_preflight(&words(&["usbsrctl", "settings", "auto-reapply", "invalid"])).unwrap();
    assert_eq!(
        operation_not_started_fields(&settings),
        "controller_action=settings-auto-reapply\noperation_kind=mutation\noperation_result=not_started\noperation_applied=0\noperation_state=not_started\n"
    );
}

#[test]
fn hidden_resampler_script_default_remains_cli_compatible() {
    let action = extra(&["resampler", "default"]);
    assert_eq!(action, ExtraAction::ResamplerPreset { preset: "179-408-99".to_string() });
    assert_eq!(action.script_args(), ["--cheat", "179", "408", "99"]);
}

#[test]
fn schema_cli_keeps_text_mode_and_adds_json_mode() {
    let text = parse(&words(&["usbsrctl", "schema"])).unwrap();
    assert_eq!(text, ControllerCommand::Schema { json: false });
    let json = parse(&words(&["usbsrctl", "schema", "--json"])).unwrap();
    assert_eq!(json, ControllerCommand::Schema { json: true });
    assert!(parse(&words(&["usbsrctl", "schema", "--yaml"])).is_err());
}

#[test]
fn cleanup_cli_is_an_internal_mutation() {
    let args = words(&["usbsrctl", "cleanup"]);
    assert_eq!(parse(&args).unwrap(), ControllerCommand::Cleanup);
    let operation = operation_preflight(&args).unwrap();
    assert_eq!(
        operation_not_started_fields(&operation),
        "controller_action=cleanup\noperation_kind=mutation\noperation_result=not_started\noperation_applied=0\noperation_state=not_started\n"
    );
}

#[test]
fn query_and_mutation_results_have_distinct_contracts() {
    for action in [
        extra(&["bluetooth-hal", "status"]),
        extra(&["resampler", "status"]),
        extra(&["usb-period", "status"]),
        extra(&["jitter", "status"]),
        extra(&["diagnose", "audio"]),
    ] {
        assert!(action.is_query());
    }
    assert!(!extra(&["usb-period", "2250"]).is_query());

    let query = render_operation_contract(OperationKind::Query, OperationResult::Success, false, None);
    assert_eq!(query, "operation_kind=query\noperation_result=success\noperation_applied=0\n");
    assert!(!query.contains("operation_state="));

    let mutation = render_operation_contract(
        OperationKind::Mutation,
        OperationResult::Failed,
        true,
        Some(OperationState::Applied),
    );
    assert!(mutation.contains("operation_applied=1\n"));
    assert!(mutation.contains("operation_state=applied\n"));
    assert_eq!(classify_operation_result(73, false, true), OperationResult::Failed);
}

#[test]
fn tests_extra_commands_are_strictly_whitelisted() {
    let parsed = extra(&["bluetooth-hal", "offload"]);
    assert_eq!(parsed.script(), "change-bluetooth-hal.sh");
    assert_eq!(parsed.script_args(), ["offload"]);

    let reset = extra(&["bluetooth-hal", "reset"]);
    assert_eq!(reset.script_args(), ["--reset"]);
    assert!(reset.requires_audio_restart());
    assert!(reset.requires_a2dp_post_check());

    assert!(parse_extra_action(&words(&["bluetooth-hal", "offload;id"])).is_err());
}

#[test]
fn main_extra_commands_are_strictly_whitelisted() {
    let parsed = parse_extra_action(&words(&["bluetooth-hal", "offload"])).unwrap();
    assert_eq!(parsed.script(), "change-bluetooth-hal.sh");
    assert_eq!(parsed.script_args(), ["offload"]);
    assert!(parse_extra_action(&words(&["bluetooth-hal", "offload;id"])).is_err());
}

#[test]
fn tests_validates_usb_period_and_jitter_parameters() {
    assert!(matches!(extra(&["usb-period", "2250"]), ExtraAction::UsbPeriodSet { period: 2_250 }));
    assert!(parse_extra_action(&words(&["usb-period", "2251"])).is_err());
    assert_eq!(
        extra(&["jitter", "enable", "io", "*", "boost"]).script_args(),
        ["--io", "*", "boost", "--status"]
    );
    assert_eq!(
        extra(&["resampler", "custom", "96", "cheat", "194", "520", "98"]).script_args(),
        ["--bypass-hires", "--cheat", "194", "520", "98"]
    );
    assert_eq!(
        extra(&["jitter", "enable", "wifi", "no-restart"]).script_args(),
        ["--wifi-no-restart", "--status"]
    );
    assert_eq!(
        extra(&["jitter", "disable", "all"]).script_args(),
        ["++all", "++battery", "++effect", "--status"]
    );
    assert!(extra(&["jitter", "disable", "all"]).requires_audio_restart());
}

#[test]
fn main_validates_usb_period_and_jitter_parameters() {
    assert!(parse_extra_action(&words(&["usb-period", "2250"])).is_ok());
    assert!(parse_extra_action(&words(&["usb-period", "2251"])).is_err());
    assert_eq!(
        parse_extra_action(&words(&["jitter", "enable", "io", "*", "boost"])).unwrap().script_args(),
        ["--io", "*", "boost", "--status"]
    );
    assert_eq!(
        parse_extra_action(&words(&["resampler", "custom", "96", "cheat", "194", "520", "98"]))
            .unwrap()
            .script_args(),
        ["--bypass-hires", "--cheat", "194", "520", "98"]
    );
    assert_eq!(
        parse_extra_action(&words(&["jitter", "enable", "wifi", "no-restart"])).unwrap().script_args(),
        ["--wifi-no-restart", "--status"]
    );
}

#[test]
fn status_extras_do_not_claim_persisted_state_changes() {
    for action in [
        extra(&["bluetooth-hal", "status"]),
        extra(&["resampler", "status"]),
        extra(&["usb-period", "status"]),
        extra(&["jitter", "status"]),
    ] {
        assert!(!action.persists_state());
    }
    assert!(extra(&["usb-period", "2250"]).persists_state());
    assert!(extra(&["diagnose", "audio"]).persists_state());
}

#[test]
fn a2dp_post_check_follows_audio_restart_except_for_jitter() {
    assert!(extra(&["bluetooth-hal", "offload"]).requires_a2dp_post_check());
    assert!(extra(&["resampler", "reset"]).requires_a2dp_post_check());
    assert!(extra(&["usb-period", "reset"]).requires_a2dp_post_check());
    assert!(!extra(&["jitter", "enable", "effect"]).requires_a2dp_post_check());
    assert!(!extra(&["diagnose", "audio"]).requires_a2dp_post_check());

    let jitter_reapply = ReapplyAction::Extra(extra(&["jitter", "enable", "effect"]));
    assert!(jitter_reapply.requires_audio_restart());
    assert!(!jitter_reapply.requires_a2dp_post_check());
    assert!(ReapplyAction::Policy(Settings::default()).requires_a2dp_post_check());
}

#[test]
fn preflight_names_settings_and_extra_operations() {
    let priority = operation_preflight(&words(&["usbsrctl", "settings", "audioserver-priority", "enable"])).unwrap();
    assert_eq!(priority.action, "settings-audioserver-priority");
    let diagnose = operation_preflight(&words(&["usbsrctl", "extra", "diagnose", "alsa"])).unwrap();
    assert_eq!(diagnose.action, "extra-diagnose-alsa");
    assert_eq!(diagnose.kind, OperationKind::Query);
    let bare = operation_preflight(&words(&["usbsrctl", "extra"])).unwrap();
    assert_eq!(bare.action, "extra");
    assert_eq!(bare.kind, OperationKind::Mutation);
    assert!(operation_preflight(&words(&["usbsrctl"])).is_none());
}

#[test]
fn internal_entry_points_are_recognized_only_in_their_exact_form() {
    assert_eq!(internal_command(&words(&["usbsrctl", "_dynamic-direct", "--policy", "usb"])), Some(InternalCommand::DynamicDirect));
    assert_eq!(internal_command(&words(&["usbsrctl", "_audioserver-priority-watch"])), Some(InternalCommand::PriorityWatch));
    assert_eq!(internal_command(&words(&["usbsrctl", "_audioserver-priority-stop", "x"])), None);
    assert_eq!(internal_command(&words(&["usbsrctl", "status"])), None);
}

#[test]
fn degraded_state_refuses_with_a_single_line_reason() {
    let (out, err) = state_preflight(Some("bad\nline\r"), false).unwrap();
    assert_eq!(out, "state_degraded=1\nstate_degraded_reason=bad line \n");
    assert_eq!(err, "state is degraded: bad line ");
    assert!(state_preflight(Some("bad"), true).is_none());
    assert!(state_preflight(None, false).is_none());
}

#[test]
fn disabled_reapply_reports_an_operation_that_never_started() {
    assert_eq!(
        usbsrctl::entry::reapply_disabled_report(),
        "auto_reapply=0\ncontroller_action=reapply\noperation_kind=mutation\noperation_result=success\noperation_applied=0\noperation_state=not_started\n"
    );
}

#[test]
fn every_rate_of_the_range_is_accepted_in_decimal() {
    for rate in [44_100u32, 48_000, 96_000, 352_800, 767_999, 768_000] {
        assert_eq!(normalize_sample_rate(&rate.to_string()), Ok(rate));
    }
}

#[test]
fn short_extra_argument_lists_get_their_usage_errors() {
    assert_eq!(
        parse_diagnostic_action(&words(&["diagnose"])),
        Err("diagnose usage: diagnose audio|bluetooth|config|alsa [all]".to_string())
    );
    assert_eq!(
        parse_jitter_action(&words(&["jitter"])),
        Err("jitter usage: jitter status | jitter enable|disable FEATURE [SCHEDULER TONE]".to_string())
    );
    assert_eq!(
        parse_custom_resampler(&words(&["resampler"])),
        Err("custom resampler usage: resampler custom none|48|96 cutoff|cheat STOP_DB HALF_LENGTH PERCENT".to_string())
    );
    assert_eq!(
        parse_diagnostic_action(&words(&["diagnose", "audio", "all"])),
        Ok(ExtraAction::Diagnose { kind: "audio".to_string(), all: true })
    );
}
