use usbsrctl::capabilities::{
    after_save, audio_ready, parse_record, record_outcome, render_record, retry_pending,
    settled_record, DeviceCapabilities, RecordRead,
};

#[test]
fn aidl_and_unknown_never_enable_legacy_controls_even_with_xml() {
    for (xml, services) in [
        (true, None),
        (false, Some("")),
        (true, Some("0 android.hardware.audio.core.IModule/default")),
    ] {
        assert!(!DeviceCapabilities::from_evidence(xml, services).legacy_controls);
    }
    assert!(DeviceCapabilities::from_evidence(true, Some("media.audio_policy")).legacy_controls);
    assert!(
        DeviceCapabilities::from_evidence(
            true,
            Some("android.hardware.bluetooth.audio.IBluetoothAudioProviderFactory/default")
        )
        .legacy_controls
    );
}

#[test]
fn old_fingerprint_fields_are_accepted_but_ignored() {
    let record = "version=1\naudio_hal=hidl\npolicy_xml_supported=1\nbuild_fingerprint=build-a\nvendor_fingerprint=vendor-a\nreason=\n";
    let caps = parse_record(record).unwrap();
    assert!(caps.legacy_controls);
    assert!(!render_record(&caps).contains("fingerprint"));
}

#[test]
fn records_preserve_full_and_limited_modes_and_are_strict() {
    assert!(!parse_record("version=1\naudio_hal=aidl\npolicy_xml_supported=1\n").unwrap().legacy_controls);
    assert!(parse_record("version=1\naudio_hal=hidl\npolicy_xml_supported=1\n").unwrap().legacy_controls);
    for bad in [
        "",
        "version=1\naudio_hal=aidl",
        "version=1\nversion=1\naudio_hal=hidl\npolicy_xml_supported=1",
        "version=1\naudio_hal=aidl\npolicy_xml_supported=yes",
    ] {
        assert!(parse_record(bad).is_err());
    }
}

#[test]
fn a_rendered_record_reads_back() {
    let limited = DeviceCapabilities::limited("aidl", "aidl_legacy_controls_unavailable");
    assert_eq!(parse_record(&render_record(&limited)).unwrap(), limited);
    let full = DeviceCapabilities::from_evidence(true, Some(""));
    assert_eq!(parse_record(&render_record(&full)).unwrap(), full);
}

#[test]
fn limited_capabilities_name_their_reason() {
    let caps = DeviceCapabilities::from_evidence(true, None);
    assert_eq!(caps.audio_hal, "unknown");
    assert_eq!(caps.reason, "audio_service_detection_unavailable");
    let caps = DeviceCapabilities::from_evidence(false, Some("media.audio_policy"));
    assert_eq!(caps.reason, "traditional_policy_xml_unavailable");
}

#[test]
fn a_written_record_reads_back_unchanged() {
    for caps in [
        DeviceCapabilities::from_evidence(true, Some("media.audio_policy")),
        DeviceCapabilities::from_evidence(false, Some("")),
        DeviceCapabilities::from_evidence(true, None),
        DeviceCapabilities::from_evidence(true, Some("android.hardware.audio.core.IModule/default")),
        DeviceCapabilities::limited("hidl", "device_record_restricts_legacy_controls"),
    ] {
        assert_eq!(parse_record(&render_record(&caps)), Ok(caps));
    }
}

#[test]
fn the_record_file_outcomes_name_their_reason() {
    assert_eq!(record_outcome(RecordRead::Missing), Err("device_capabilities_missing"));
    assert_eq!(record_outcome(RecordRead::Unreadable), Err("device_capabilities_unreadable"));
    assert_eq!(
        record_outcome(RecordRead::Content("version=2\n".to_string())),
        Err("invalid_device_capabilities")
    );
    let full = DeviceCapabilities::from_evidence(true, Some(""));
    assert_eq!(record_outcome(RecordRead::Content(render_record(&full))), Ok(full.clone()));
    assert_eq!(settled_record(&Ok(full.clone())), Some(full.clone()));
    let unknown = DeviceCapabilities::limited("unknown", "traditional_policy_xml_unavailable");
    assert_eq!(settled_record(&Ok(unknown)), None);
    assert_eq!(
        settled_record(&Err("device_capabilities_missing")),
        Some(DeviceCapabilities::limited("unknown", "device_capabilities_missing"))
    );
    assert_eq!(retry_pending(), DeviceCapabilities::limited("unknown", "device_capabilities_retry_pending"));
    assert_eq!(after_save(full.clone(), true), full.clone());
    assert_eq!(after_save(full, false), DeviceCapabilities::limited("unknown", "device_capabilities_save_failed"));
}

#[test]
fn detection_waits_for_boot_and_audioserver() {
    assert!(audio_ready(Some("1\n"), Some("running\n")));
    assert!(!audio_ready(Some("0\n"), Some("running\n")));
    assert!(!audio_ready(Some("1"), Some("stopped")));
    assert!(!audio_ready(None, Some("running")));
    assert!(!audio_ready(Some("1"), None));
}

#[test]
fn records_with_unknown_or_repeated_keys_or_bad_lines_are_refused() {
    assert!(parse_record("version=1\naudio_hal=hidl\npolicy_xml_supported=1\nextra=1\n").is_err());
    assert!(parse_record("version=1\naudio_hal=hidl\naudio_hal=hidl\npolicy_xml_supported=1\n").is_err());
    assert!(parse_record("version=1\naudio_hal=hidl\npolicy_xml_supported=1\nnot a pair\n").is_err());
    assert!(parse_record("version=2\naudio_hal=hidl\npolicy_xml_supported=1\n").is_err());
    assert!(parse_record("# note\n\nversion=1\naudio_hal=legacy-xml\npolicy_xml_supported=1\n").unwrap().legacy_controls);
    assert!(!parse_record("version=1\naudio_hal=hidl\npolicy_xml_supported=0\n").unwrap().legacy_controls);
}
