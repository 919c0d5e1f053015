use usbsrctl::capabilities::DeviceCapabilities;
use usbsrctl::catalog::{
    BLUETOOTH_HAL_OPTIONS, JITTER_BASE_FEATURES, JITTER_FEATURES, RESAMPLER_GROUP_NAMES,
    RESAMPLER_NONLINEAR_PRESETS, RESAMPLER_PRESET_NAMES, RESAMPLER_SIMULATED_PRESETS,
    RESAMPLER_STANDARD_PRESETS,
};
use usbsrctl::protocol::{json_quote, render_schema_json_with_capabilities, CONTROLLER_VERSION};

fn schema() -> String {
    render_schema_json_with_capabilities(
        "unknown",
        &DeviceCapabilities::from_evidence(true, Some("")),
        &vec!["offload_template.xml".to_string()],
    )
}

#[test]
fn renders_machine_schema_with_stable_contract_fields() {
    let schema = schema();
    assert!(schema.starts_with('{') && schema.ends_with('}'));
    let version = format!("\"controller_version\":\"{}\"", CONTROLLER_VERSION);
    for field in [
        "\"schema_version\":1",
        "\"api_version\":1",
        version.as_str(),
        "\"limits\":",
        "\"policy\":{",
        "\"sample_rates\":[",
        "\"bit_depths\":[",
        "\"extras\":{",
        "\"jitter\":{",
        "\"label_key\":\"policy.option.auto.label\"",
        "\"description_key\":\"policy.option.auto.description\"",
        "\"description_key\":\"tools.bluetooth_hal.description\"",
        "\"description_key\":\"jitter.selinux.description\"",
    ] {
        assert!(schema.contains(field), "schema is missing {field}");
    }
    assert!(schema.contains("\"usb_period\":{\"min\":125"));
    assert!(schema.contains("\"features\":[{\"value\":\"selinux\""));
    assert!(schema.contains("\"templates\":["));
}

#[test]
fn renders_complete_extras_schema_capabilities() {
    let schema = schema();
    for field in [
        "\"capabilities\":{\"json_schema\":true",
        "\"bluetooth_hal\":{\"available\":true,\"tool\":\"bluetooth-hal\"",
        "\"default\":\"offload\",\"recommended\":\"offload\"",
        "\"kind\":\"status\",\"selectable\":false",
        "\"actions\":[{\"value\":\"status\",\"kind\":\"status\",\"selectable\":false}",
        "\"value\":\"reset\",\"label_key\":\"bluetooth_hal.action.reset.label\",\"kind\":\"reset\",\"selectable\":false",
        "\"operations\":{\"status\":true,\"set\":true,\"reset\":true}",
        "\"resampler\":{\"available\":true,\"tool\":\"resampler\"",
        "\"default_preset\":\"179-408-99\",\"upstream_default_preset\":\"default\",\"recommended\":\"179-408-99\"",
        "\"value\":\"custom\",\"label_key\":\"resampler.custom.label\"",
        "\"actions\":[{\"value\":\"status\",\"kind\":\"status\",\"selectable\":false},{\"value\":\"reset\",\"kind\":\"reset\",\"selectable\":false}",
        "\"bypass_options\":[{\"value\":\"none\"",
        "\"stop_band\":{\"min\":20,\"max\":242,\"step\":1,\"default\":179",
        "\"half_length\":{\"min\":8,\"max\":640,\"step\":8,\"default\":408}",
        "\"usb_period\":{\"available\":true,\"tool\":\"usb-period\"",
        "\"range\":{\"min\":125,\"max\":50000,\"step\":125,\"unit\":\"usec\"}",
        "\"jitter\":{\"available\":true,\"tool\":\"jitter\"",
        "\"high_risk\":true,\"requires_audio_restart\":false",
        "\"io_scheduler_options\":[{\"value\":\"*\"",
        "\"io_tone_options\":[{\"value\":\"light\"",
        "\"reset_features\":[\"selinux\",\"thermal\",\"doze\"",
        "\"diagnostics\":{\"available\":true,\"tool\":\"diagnose\"",
        "\"complete_output\":{\"supported\":true,\"argument\":\"all\"",
    ] {
        assert!(schema.contains(field), "extras schema is missing {field}");
    }
    assert!(!schema.contains("\"value\":\"default\""));
    assert!(!schema.contains("resampler.preset.default.label"));
    assert!(schema.contains("\"wifi\",\"battery\",\"effect\"],\"operations\""));
}

#[test]
fn schema_catalog_matches_all_selectable_extra_options() {
    assert_eq!(BLUETOOTH_HAL_OPTIONS, ["offload", "aosp", "legacy", "sysbta"]);
    let mut grouped: Vec<&str> = RESAMPLER_STANDARD_PRESETS
        .iter()
        .chain(RESAMPLER_NONLINEAR_PRESETS.iter())
        .chain(RESAMPLER_SIMULATED_PRESETS.iter())
        .copied()
        .filter(|value| *value != "custom")
        .collect();
    grouped.sort();
    let mut presets: Vec<&str> = RESAMPLER_PRESET_NAMES.to_vec();
    presets.sort();
    assert_eq!(grouped, presets);
    assert!(!presets.contains(&"default"));
    assert_eq!(
        RESAMPLER_STANDARD_PRESETS
            .iter()
            .chain(RESAMPLER_NONLINEAR_PRESETS.iter())
            .chain(RESAMPLER_SIMULATED_PRESETS.iter())
            .filter(|value| **value == "custom")
            .count(),
        1
    );
    assert_eq!(RESAMPLER_GROUP_NAMES, ["standard", "nonlinear", "simulated"]);
    assert!(JITTER_BASE_FEATURES.iter().all(|feature| JITTER_FEATURES.contains(feature)));
}

#[test]
fn limited_devices_offer_no_policy_options_and_no_hal_changes() {
    let schema = render_schema_json_with_capabilities(
        "3.1",
        &DeviceCapabilities::limited("aidl", "aidl_legacy_controls_unavailable"),
        &Vec::new(),
    );
    assert!(schema.contains("\"script_version\":\"3.1\""));
    assert!(schema.contains("\"mode\":\"limited\",\"reason\":\"aidl_legacy_controls_unavailable\""));
    assert!(schema.contains("\"policy\":{\"available\":false,\"default\":\"auto\",\"options\":[]}"));
    assert!(schema.contains("\"sample_rates\":[],\"bit_depths\":[],\"switches\":[]"));
    assert!(schema.contains("\"operations\":{\"status\":true,\"set\":false,\"reset\":false}"));
    assert!(schema.ends_with(",\"templates\":[]}"));
}

#[test]
fn json_strings_escape_quotes_backslashes_and_controls() {
    assert_eq!(json_quote("a\"b\\c\nd\te\r"), "\"a\\\"b\\\\c\\nd\\te\\r\"");
    assert_eq!(json_quote("\u{1}\u{7f}"), "\"\\u0001\\u007f\"");
    assert_eq!(json_quote("é"), "\"é\"");
}

#[test]
fn json_quote_escapes_only_what_json_needs() {
    assert_eq!(json_quote("a\"b\\c\n\r\t/\u{e9}"), "\"a\\\"b\\\\c\\n\\r\\t/\u{e9}\"");
    assert_eq!(json_quote(""), "\"\"");
    assert_eq!(json_quote("\u{9f}\u{a0}"), "\"\\u009f\u{a0}\"");
}

#[test]
fn json_quote_output_holds_no_control_character() {
    let all: String = (0u32..0x100).filter_map(char::from_u32).collect();
    let quoted = json_quote(&all);
    assert!(quoted.starts_with('"') && quoted.ends_with('"') && quoted.len() >= 2);
    assert!(!quoted.chars().any(char::is_control));
    assert_eq!(json_quote("a\"b\\c\n"), r#""a\"b\\c\n""#);
}
