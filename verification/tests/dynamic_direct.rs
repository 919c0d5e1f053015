use usbsrctl::domain::Settings;
use usbsrctl::dynamic_direct::{
    baseline_plan, check_capture, check_snapshot, digest, include_href, inherit, merge_documents,
    mounted_roots, parse_policy, render, snapshot_key, validate_graph, BaselinePlan,
};

const STOCK: &str = r#"<?xml version="1.0" encoding="UTF-8"?>
<audioPolicyConfiguration version="7.0" xmlns:xi="http://www.w3.org/2001/XInclude">
<modules>
<module name="primary" halVersion="3.0">
<mixPorts>
<mixPort name="primary output" role="source" flags="AUDIO_OUTPUT_FLAG_FAST AUDIO_OUTPUT_FLAG_PRIMARY"/>
<mixPort name="deep_buffer" role="source" flags="AUDIO_OUTPUT_FLAG_DEEP_BUFFER"/>
<mixPort name="voip_rx" role="source" flags="AUDIO_OUTPUT_FLAG_VOIP_RX"><profile name="" format="AUDIO_FORMAT_PCM_16_BIT" samplingRates="16000" channelMasks="AUDIO_CHANNEL_OUT_MONO"/></mixPort>
</mixPorts>
<devicePorts>
<devicePort tagName="BT A2DP Out" type="AUDIO_DEVICE_OUT_BLUETOOTH_A2DP" role="sink" encodedFormats="AUDIO_FORMAT_LHDC AUDIO_FORMAT_SBC"><profile name="" format="AUDIO_FORMAT_PCM_16_BIT" samplingRates="44100 48000" channelMasks="AUDIO_CHANNEL_OUT_STEREO"/></devicePort>
<devicePort tagName="BT A2DP Headphones" type="AUDIO_DEVICE_OUT_BLUETOOTH_A2DP_HEADPHONES" role="sink" encodedFormats="AUDIO_FORMAT_LHDC AUDIO_FORMAT_SBC"><profile name="" format="AUDIO_FORMAT_PCM_16_BIT" samplingRates="44100 48000" channelMasks="AUDIO_CHANNEL_OUT_STEREO"/></devicePort>
<devicePort tagName="BT A2DP Speaker" type="AUDIO_DEVICE_OUT_BLUETOOTH_A2DP_SPEAKER" role="sink" encodedFormats="AUDIO_FORMAT_LHDC AUDIO_FORMAT_SBC"><profile name="" format="AUDIO_FORMAT_PCM_16_BIT" samplingRates="44100 48000" channelMasks="AUDIO_CHANNEL_OUT_STEREO"/></devicePort>
</devicePorts>
<routes>
<route type="mix" sink="BT A2DP Out" sources="primary output,deep_buffer,voip_rx"/>
<route type="mix" sink="BT A2DP Headphones" sources="primary output,deep_buffer,voip_rx"/>
<route type="mix" sink="BT A2DP Speaker" sources="primary output,deep_buffer,voip_rx"/>
</routes>
</module>
<module name="bluetooth_qti" halVersion="2.0">
<mixPorts>
<mixPort name="a2dp output" role="source"/>
</mixPorts>
<devicePorts>
<devicePort tagName="BT A2DP Out" type="AUDIO_DEVICE_OUT_BLUETOOTH_A2DP" role="sink" encodedFormats="AUDIO_FORMAT_FORCE_AOSP"/>
</devicePorts>
<routes>
<route type="mix" sink="BT A2DP Out" sources="a2dp output"/>
</routes>
</module>
</modules>
<xi:include href="/vendor/etc/audio_policy_volumes.xml"/>
<xi:include href="default_volume_tables.xml"/>
</audioPolicyConfiguration>
"#;

const TEMPLATE: &str = r#"<?xml version="1.0" encoding="UTF-8"?>
<audioPolicyConfiguration version="7.0" xmlns:xi="http://www.w3.org/2001/XInclude">
<globalConfiguration speaker_drc_enabled="%DRC_ENABLED%"/>
<modules>
<module name="primary" halVersion="3.0">
<mixPorts>
<mixPort name="primary output" role="source" flags="AUDIO_OUTPUT_FLAG_PRIMARY AUDIO_OUTPUT_FLAG_FAST"/>
<mixPort name="deep buffer" role="source" flags="AUDIO_OUTPUT_FLAG_DEEP_BUFFER"/>
<mixPort name="direct_pcm" role="source" flags="AUDIO_OUTPUT_FLAG_DIRECT"><profile name="" format="%AUDIO_FORMAT%" samplingRates="%SAMPLING_RATE%" channelMasks="AUDIO_CHANNEL_OUT_STEREO"/></mixPort>
<mixPort name="compressed_offload" role="source" flags="AUDIO_OUTPUT_FLAG_DIRECT AUDIO_OUTPUT_FLAG_COMPRESS_OFFLOAD"/>
<mixPort name="voip_rx" role="source" flags="AUDIO_OUTPUT_FLAG_VOIP_RX"/>
<mixPort name="incall playback" role="source"/>
</mixPorts>
<devicePorts>
<devicePort tagName="Speaker" type="AUDIO_DEVICE_OUT_SPEAKER" role="sink"/>
<devicePort tagName="Telephony Tx" type="AUDIO_DEVICE_OUT_TELEPHONY_TX" role="sink"/>
<devicePort tagName="voice call tx" type="AUDIO_DEVICE_IN_TELEPHONY_RX" role="source"/>
<devicePort tagName="A2DP Out" type="AUDIO_DEVICE_OUT_BLUETOOTH_A2DP" role="sink"/>
<devicePort tagName="A2DP Headphones" type="AUDIO_DEVICE_OUT_BLUETOOTH_A2DP_HEADPHONES" role="sink"/>
<devicePort tagName="A2DP Speaker" type="AUDIO_DEVICE_OUT_BLUETOOTH_A2DP_SPEAKER" role="sink"/>
</devicePorts>
<routes>
<route type="mix" sink="Speaker" sources="primary output,deep buffer,direct_pcm,compressed_offload,voip_rx"/>
<route type="mix" sink="Telephony Tx" sources="incall playback,voice call tx"/>
<route type="mix" sink="A2DP Out" sources="primary output"/>
<route type="mix" sink="A2DP Headphones" sources="primary output"/>
<route type="mix" sink="A2DP Speaker" sources="primary output"/>
</routes>
</module>
<module name="%USB_MODULE%" halVersion="2.0">
<mixPorts>
<mixPort name="usb_playback" role="source"/>
</mixPorts>
<devicePorts>
<devicePort tagName="USB Device Out" type="AUDIO_DEVICE_OUT_USB_DEVICE" role="sink"/>
</devicePorts>
<routes>
<route type="mix" sink="USB Device Out" sources="usb_playback"/>
</routes>
</module>
<module name="%BT_MODULE%" halVersion="2.0"/>
</modules>
<xi:include href="%VOLUME_FILE%"/>
<xi:include href="%DEFAULT_VOLUME_FILE%"/>
</audioPolicyConfiguration>
"#;

fn rendered() -> String {
    render(
        TEMPLATE,
        &Settings::default(),
        "usb",
        "/vendor/etc/audio_policy_volumes.xml",
        "/vendor/etc/default_volume_tables.xml",
    )
    .unwrap()
}

fn generate(stock: &str, template: &str) -> Result<String, String> {
    inherit(stock.as_bytes(), template.as_bytes()).map(|bytes| String::from_utf8(bytes).unwrap())
}

fn element<'a, 'i>(
    doc: &'a roxmltree::Document<'i>,
    tag: &str,
    key: &str,
    value: &str,
) -> roxmltree::Node<'a, 'i> {
    doc.descendants()
        .find(|n| n.has_tag_name(tag) && n.attribute(key) == Some(value))
        .unwrap()
}

#[test]
fn thor_inherits_lhdc_profiles_routes_and_vendor_fallback() {
    let generated = generate(STOCK, &rendered()).unwrap();
    let doc = roxmltree::Document::parse(&generated).unwrap();
    let primary = element(&doc, "module", "name", "primary");
    let a2dp_ports: Vec<_> = primary
        .descendants()
        .filter(|n| {
            n.has_tag_name("devicePort")
                && n.attribute("type").is_some_and(|t| t.starts_with("AUDIO_DEVICE_OUT_BLUETOOTH_A2DP"))
        })
        .collect();
    assert_eq!(a2dp_ports.len(), 3);
    for p in a2dp_ports {
        assert!(p.attribute("encodedFormats").unwrap().contains("AUDIO_FORMAT_LHDC"));
        let profile = p.children().find(|n| n.has_tag_name("profile")).unwrap();
        assert_eq!(profile.attribute("format"), Some("AUDIO_FORMAT_PCM_16_BIT"));
    }
    assert!(generated.contains("primary output,deep buffer,direct_pcm,compressed_offload,voip_rx"));
    assert!(generated.contains("<route type=\"mix\" sink=\"A2DP Out\" sources=\"primary output,deep buffer,voip_rx\"/>"));
    let bt = element(&doc, "module", "name", "bluetooth_qti");
    assert!(generated[bt.range()].contains("AUDIO_FORMAT_FORCE_AOSP"));
    let a2dp = element(&doc, "mixPort", "name", "a2dp output");
    assert_eq!(a2dp.children().filter(|n| n.is_element()).count(), 0);
    assert!(generated.ends_with("\n<!-- usbsrctl:direct-pcm-dynamic:v1 -->\n"));
}

#[test]
fn keeps_direct_outputs_and_non_bluetooth_template_nodes_unchanged() {
    let rendered = rendered();
    let generated = generate(STOCK, &rendered).unwrap();
    let before = roxmltree::Document::parse(&rendered).unwrap();
    let after = roxmltree::Document::parse(&generated).unwrap();
    for name in ["primary output", "deep buffer", "direct_pcm", "compressed_offload", "usb_playback"] {
        let a = element(&before, "mixPort", "name", name).range();
        let b = element(&after, "mixPort", "name", name).range();
        assert_eq!(&rendered[a], &generated[b]);
    }
}

#[test]
fn rejects_unknown_sources_duplicate_ports_and_nested_includes() {
    assert!(generate(&STOCK.replace("deep_buffer", "unknown_vendor_output"), &rendered())
        .unwrap_err()
        .contains("cannot map"));
    let duplicate = STOCK.replace("<devicePorts>", "<devicePorts><devicePort tagName=\"duplicate\" type=\"AUDIO_DEVICE_OUT_BLUETOOTH_A2DP\" role=\"sink\"/>");
    assert!(generate(&duplicate, &rendered()).is_err());
    let included = STOCK.replacen("<mixPorts>", "<xi:include href=\"ports.xml\"/><mixPorts>", 1);
    assert!(generate(&included, &rendered()).unwrap_err().contains("XInclude"));
}

#[test]
fn rejects_missing_codec_and_dangling_template_route() {
    assert!(generate(&STOCK.replace("encodedFormats=", "removedFormats="), &rendered()).is_err());
    assert!(generate(
        STOCK,
        &rendered().replace("sources=\"incall playback,voice call tx\"", "sources=\"nonexistent\"")
    )
    .is_err());
    assert!(generate(&STOCK.replace("version=\"7.0\"", "version=\"1.0\""), &rendered()).is_err());
}

#[test]
fn the_version_check_names_the_supported_version() {
    assert_eq!(
        generate(&STOCK.replace("version=\"7.0\"", "version=\"1.0\""), &rendered()).unwrap_err(),
        "Direct PCM dynamic v1 supports HIDL policy XML version 7.0 only"
    );
}

#[test]
fn a_stock_without_offload_codecs_is_refused() {
    let stock = STOCK.replace("AUDIO_FORMAT_LHDC AUDIO_FORMAT_SBC", "AUDIO_FORMAT_FORCE_AOSP");
    assert_eq!(
        generate(&stock, &rendered()).unwrap_err(),
        "AUDIO_DEVICE_OUT_BLUETOOTH_A2DP: no system Primary offload codecs"
    );
}

#[test]
fn a_dangling_route_is_named() {
    assert_eq!(
        validate_graph(b"<a><module name=\"m\"><mixPorts><mixPort name=\"x\" role=\"source\"/></mixPorts><routes><route sink=\"y\" sources=\"x\"/></routes></module></a>"),
        Err("invalid route sink: m/y".to_string())
    );
    assert_eq!(
        validate_graph(b"<a><module name=\"m\"/><module name=\"m\"/></a>"),
        Err("duplicate module: m".to_string())
    );
    assert_eq!(validate_graph(b"<a><module name=\"m\"/></a>"), Ok(()));
}

#[test]
fn rendering_fills_every_placeholder() {
    let out = rendered();
    assert!(!out.contains('%'));
    assert!(out.contains("speaker_drc_enabled=\"false\""));
    assert!(out.contains("<module name=\"dynamic_bluetooth_placeholder\" halVersion=\"2.0\"/>"));
    assert!(out.contains("samplingRates=\"44100\""));
    assert!(out.contains("format=\"AUDIO_FORMAT_PCM_32_BIT\""));
    assert_eq!(
        render("%UNKNOWN%", &Settings::default(), "usb", "a", "b"),
        Err("unresolved dynamic template placeholder".to_string())
    );
}

#[test]
fn mounted_roots_lists_the_sources_mounted_on_the_target() {
    let info = "36 25 0:5 / /dev rw - tmpfs tmpfs rw\n\
                900 36 253:4 /data/local/tmp/audio_conf_generated.xml /vendor/etc/audio_policy_configuration.xml rw - ext4 /dev/block/dm-4 rw\n";
    assert_eq!(
        mounted_roots(info, "/vendor/etc/audio_policy_configuration.xml"),
        vec!["/data/local/tmp/audio_conf_generated.xml".to_string()]
    );
    assert!(mounted_roots(info, "/odm/etc/x.xml").is_empty());
}

#[test]
fn include_href_finds_the_one_include_with_the_suffix() {
    assert_eq!(
        include_href(STOCK.as_bytes(), "/audio_policy_volumes.xml"),
        Ok("/vendor/etc/audio_policy_volumes.xml".to_string())
    );
    assert_eq!(
        include_href(STOCK.as_bytes(), "missing.xml"),
        Err("expected one system missing.xml include".to_string())
    );
}

#[test]
fn digest_is_lowercase_sha256_hex() {
    assert_eq!(
        digest(b""),
        "e3b0c44298fc1c149afbf4c8996fb92427ae41e4649b934ca495991b7852b855"
    );
    assert_eq!(
        digest(b"abc"),
        "ba7816bf8f01cfea414140de5dae2223b00361a396177a9cb410ff61f20015ad"
    );
}

#[test]
fn snapshot_is_tied_to_boot_and_checksum() {
    assert_eq!(baseline_plan(&vec![]), Ok(BaselinePlan::Capture));
    assert_eq!(
        baseline_plan(&vec!["/data/local/tmp/audio_conf_generated.xml".to_string()]),
        Ok(BaselinePlan::Reuse)
    );
    assert!(baseline_plan(&vec!["/another-module.xml".to_string()]).is_err());
    assert_ne!(snapshot_key("/vendor/etc/policy.xml", "boot1"), snapshot_key("/vendor/etc/policy.xml", "boot2"));
    assert_eq!(check_capture(STOCK), Ok(()));
    assert!(check_capture("generated\n<!-- usbsrctl:direct-pcm-dynamic:v1 -->\n").is_err());
    assert_eq!(check_snapshot(STOCK, &digest(STOCK.as_bytes())), Ok(()));
    assert!(check_snapshot(STOCK, "0000").is_err());
}

#[test]
fn merging_the_parsed_documents_gives_the_generated_policy_without_its_marker() {
    let template = rendered();
    let source = parse_policy(STOCK.as_bytes()).unwrap();
    let target = parse_policy(template.as_bytes()).unwrap();
    let merged = merge_documents(STOCK.as_bytes(), template.as_bytes(), &source, &target).unwrap();
    let merged = String::from_utf8(merged).unwrap();
    assert_ne!(merged, template);
    assert!(merged.contains("AUDIO_FORMAT_LHDC"));
    assert!(!merged.contains("usbsrctl:direct-pcm-dynamic"));
    assert_eq!(validate_graph(merged.as_bytes()), Ok(()));
    let generated = generate(STOCK, &template).unwrap();
    assert_eq!(generated, format!("{merged}\n<!-- usbsrctl:direct-pcm-dynamic:v1 -->\n"));
}

#[test]
fn merging_refuses_a_system_policy_of_another_version() {
    let stock = STOCK.replace("version=\"7.0\"", "version=\"6.0\"");
    let template = rendered();
    let source = parse_policy(stock.as_bytes()).unwrap();
    let target = parse_policy(template.as_bytes()).unwrap();
    assert_eq!(
        merge_documents(stock.as_bytes(), template.as_bytes(), &source, &target).unwrap_err(),
        "Direct PCM dynamic v1 supports HIDL policy XML version 7.0 only"
    );
}

#[test]
fn a_policy_that_does_not_parse_is_refused_with_the_parser_message() {
    let err = parse_policy(b"<audioPolicyConfiguration").map(|_| ()).unwrap_err();
    assert!(err.starts_with("invalid audio policy XML: "));
}
