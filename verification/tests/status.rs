use usbsrctl::android::A2dpState;
use usbsrctl::capabilities::DeviceCapabilities;
use usbsrctl::domain::{NamespaceInfo, StoredSettings};
use usbsrctl::state_file::{StateHealth, StateSnapshot};
use usbsrctl::status::{is_xml_name, render_schema, render_status, script_version, template_list};

fn names(v: &[&str]) -> Vec<String> {
    v.iter().map(|s| s.to_string()).collect()
}

#[test]
fn the_script_version_is_the_first_declared_one() {
    assert_eq!(script_version(Some("#!/bin/sh\n  # Version:  v3.2 \necho\n")), "v3.2");
    assert_eq!(script_version(Some("# Version:   \n# Version: 9\n")), "9");
    assert_eq!(script_version(Some("#!/bin/sh\necho hi\n")), "unknown");
    assert_eq!(script_version(None), "unknown");
}

#[test]
fn templates_are_sorted_with_forward_slashes_and_without_the_dynamic_one() {
    let found = names(&["b.xml", "offload_direct_dynamic_template.xml", "a\\c.xml", "a.xml"]);
    assert_eq!(template_list(&found), names(&["a.xml", "a/c.xml", "b.xml"]));
    assert!(template_list(&names(&[])).is_empty());
    assert!(is_xml_name("x.xml"));
    assert!(is_xml_name("..xml"));
    assert!(!is_xml_name(".xml"));
    assert!(!is_xml_name("x.XML"));
    assert!(!is_xml_name("x.xml.bak"));
}

#[test]
fn the_limited_schema_stops_after_its_version() {
    let caps = DeviceCapabilities::from_evidence(true, Some("android.hardware.audio.core.IModule/default"));
    assert_eq!(
        render_schema(&caps, &names(&["a.xml"])),
        "audio_hal=aidl\ncapability_mode=limited\ncapability_reason=aidl_legacy_controls_unavailable\n\
         policy_available=0\nbluetooth_hal_available=0\nusb_period_available=0\nschema_version=1\n"
    );
}

#[test]
fn the_full_schema_lists_every_choice() {
    let caps = DeviceCapabilities::from_evidence(true, Some(""));
    let text = render_schema(&caps, &names(&["a.xml", "b/c.xml"]));
    assert!(text.starts_with(
        "audio_hal=legacy-xml\ncapability_mode=full\ncapability_reason=\npolicy_available=1\n\
         bluetooth_hal_available=1\nusb_period_available=1\nschema_version=1\n\
         custom_rate_min=44100\ncustom_rate_max=768000\npolicies_begin\npolicy=auto|--auto|自动检测\n"
    ));
    assert_eq!(text.lines().filter(|l| l.starts_with("policy=")).count(), 22);
    assert!(text.contains("policy=usb|--usb-only|仅USB\npolicies_end\nrates_begin\nrate=44100|44.1 kHz\n"));
    assert!(text.contains("rate=768000|768 kHz\nrates_end\nbit_depths_begin\nbit_depth=16|16-bit PCM\n"));
    assert!(text.ends_with(
        "bit_depth=float|32-bit float PCM\nbit_depths_end\nswitch=drc|--drc\nswitch=force_usbv2|--force-usbv2\n\
         switch=force_bluetooth_qti|--force-bluetooth-qti\nswitch=amzm|--amzm\nswitch=test|--test\n\
         action=reset|--reset\ntemplates_begin\ntemplate=a.xml\ntemplate=b/c.xml\ntemplates_end\n"
    ));
}

#[test]
fn status_reports_state_settings_namespaces_and_capabilities() {
    let snapshot = StateSnapshot {
        settings: StoredSettings::default(),
        health: StateHealth::Degraded("bad\nline".to_string()),
        migrated_from: Some(2),
        recovery_reason: None,
    };
    let ns = NamespaceInfo {
        self_ns: Some("mnt:[1]".to_string()),
        init_ns: Some("mnt:[1]".to_string()),
        audio_ns: None,
        audio_pid: Some(42),
    };
    let caps = DeviceCapabilities::from_evidence(false, Some(""));
    let text = render_status(
        &snapshot,
        "v3.2",
        "/data/adb/modules/x",
        A2dpState::Unknown,
        true,
        &ns,
        &Some("last_operation=apply\n".to_string()),
        &names(&["a.xml"]),
        &caps,
    );
    let expected = "state_degraded=1\nstate_degraded_reason=bad line\nstate_migration=v2->v3\n\
controller_version=0.1.0\nlast_command_log=/data/local/tmp/usb_samplerate_changer_webui/last-command.log\n\
script_version=v3.2\nmodule_dir=/data/adb/modules/x\n\
policy=auto\nsample_rate=44100\nbit_depth=32\ndrc=0\nforce_usbv2=0\nforce_bluetooth_qti=0\n\
bluetooth_a2dp_state=unknown\nbluetooth_a2dp_connected=0\namzm=0\ntest=0\ntest_template=\n\
policy_configured=0\nbluetooth_hal=offload\nbluetooth_hal_configured=0\nresampler_preset=179-408-99\n\
resampler_configured=0\nresampler_bypass=none\nresampler_cheat=1\nresampler_stop_band=179\n\
resampler_half_length=408\nresampler_percent=99\nusb_period=2250\nusb_period_configured=0\n\
diagnostic=audio\ndiagnostic_all=0\nio_scheduler=*\nio_tone=medium\nwifi_no_restart=0\nauto_reapply=0\n\
audioserver_priority=1\n";
    assert!(text.starts_with(expected), "{text}");
    assert_eq!(text.lines().filter(|l| l.starts_with("jitter_")).count(), 22);
    assert!(text.ends_with(
        "audioserver_pid=42\nself_ns=mnt:[1]\ninit_ns=mnt:[1]\naudio_ns=\nnamespace_ok=1\n\
last_operation=apply\ntemplates_begin\ntemplate=a.xml\ntemplates_end\n\
audio_hal=unknown\ncapability_mode=limited\ncapability_reason=traditional_policy_xml_unavailable\n\
policy_available=0\nbluetooth_hal_available=0\nusb_period_available=0\n"
    ));
}

#[test]
fn an_unversioned_recovery_is_reported_as_such() {
    let snapshot = StateSnapshot {
        settings: StoredSettings::default(),
        health: StateHealth::Healthy,
        migrated_from: None,
        recovery_reason: Some("rebuilt\r\nfrom defaults".to_string()),
    };
    let ns = NamespaceInfo { self_ns: None, init_ns: None, audio_ns: None, audio_pid: None };
    let caps = DeviceCapabilities::from_evidence(true, Some(""));
    let text = render_status(&snapshot, "unknown", "/m", A2dpState::Connected, false, &ns, &None, &vec![], &caps);
    assert!(text.starts_with(
        "state_degraded=0\nstate_migration=unversioned->v3\nstate_recovery_reason=rebuilt  from defaults\ncontroller_version="
    ));
    assert!(text.contains("bluetooth_a2dp_state=connected\nbluetooth_a2dp_connected=1\n"));
    assert!(text.contains("jitter_"));
    assert!(text.contains("audioserver_pid=\nself_ns=\ninit_ns=\naudio_ns=\nnamespace_ok=unknown\ntemplates_begin\ntemplates_end\n"));
}

#[test]
fn global_namespace_check_does_not_require_the_audioserver_inode() {
    let global_with_isolated_audio = NamespaceInfo {
        self_ns: Some("mnt:[1]".into()),
        init_ns: Some("mnt:[1]".into()),
        audio_ns: Some("mnt:[2]".into()),
        audio_pid: Some(42),
    };
    assert_eq!(global_with_isolated_audio.is_global(), Some(true));

    let private_shell = NamespaceInfo {
        self_ns: Some("mnt:[3]".into()),
        ..global_with_isolated_audio
    };
    assert_eq!(private_shell.is_global(), Some(false));
}
