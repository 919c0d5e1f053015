use usbsrctl::android::{bluetooth_a2dp_connected_in_dump, pid_from_pidof, pid_from_property, poll_step, route_verdict, A2dpState};

const CONNECTED: &str = "volume bt_a2dp\n- STREAM_MUSIC:\n  Devices: bt_a2dp(80)\n- STREAM_ALARM:\nConnected devices:\n  [DeviceInfo: type:0x80 (bt_a2dp) name:Headphones]\nAPM Connected device (A2DP sink only):\n";
const DISCONNECTED: &str = "volume bt_a2dp\n- STREAM_MUSIC:\n  Devices: speaker(2)\n- STREAM_ALARM:\nConnected devices:\n  [DeviceInfo: type:0x10 (bt_sco) name:Headphones]\nAPM Connected device (A2DP sink only):\n";
const CONNECTED_BUT_UNROUTED: &str = "- STREAM_MUSIC:\n  Devices: speaker(2)\n- STREAM_ALARM:\nConnected devices:\n  [DeviceInfo: type:0x80 (bt_a2dp) name:Headphones]\nAPM Connected device (A2DP sink only):\n";

#[test]
fn tests_detects_a2dp_only_inside_connected_device_section() {
    assert!(bluetooth_a2dp_connected_in_dump(CONNECTED));
    assert!(!bluetooth_a2dp_connected_in_dump(DISCONNECTED));
    assert!(!bluetooth_a2dp_connected_in_dump(CONNECTED_BUT_UNROUTED));
    assert_eq!(A2dpState::Connected.label(), "connected");
    assert_eq!(A2dpState::Disconnected.label(), "disconnected");
    assert_eq!(A2dpState::Unknown.label(), "unknown");
}

#[test]
fn main_detects_a2dp_only_inside_connected_device_section() {
    assert!(bluetooth_a2dp_connected_in_dump(CONNECTED));
    assert!(!bluetooth_a2dp_connected_in_dump(DISCONNECTED));
    assert!(!bluetooth_a2dp_connected_in_dump(CONNECTED_BUT_UNROUTED));
}

#[test]
fn detects_le_audio_media_routes() {
    for device in ["ble_headset", "ble_speaker", "ble_broadcast"] {
        let connected = format!(
            "- STREAM_MUSIC:\n  Devices: {device}(20000000)\n- STREAM_ALARM:\nConnected devices:\n  [DeviceInfo: type:0x20000000 ({device}) name:LE Audio]\nAPM Connected device (A2DP sink only):\n"
        );
        assert!(bluetooth_a2dp_connected_in_dump(&connected), "failed to detect {device}");

        let unrouted = format!(
            "- STREAM_MUSIC:\n  Devices: speaker(2)\n- STREAM_ALARM:\nConnected devices:\n  [DeviceInfo: type:0x20000000 ({device}) name:LE Audio]\nAPM Connected device (A2DP sink only):\n"
        );
        assert!(!bluetooth_a2dp_connected_in_dump(&unrouted));
    }
}

#[test]
fn a_dump_without_a_connected_section_shows_no_route() {
    assert!(!bluetooth_a2dp_connected_in_dump("- STREAM_MUSIC:\n  Devices: bt_a2dp(80)\n"));
    assert!(!bluetooth_a2dp_connected_in_dump(""));
}

#[test]
fn route_polling_keeps_the_last_known_state() {
    assert_eq!(poll_step(A2dpState::Unknown, A2dpState::Disconnected), (A2dpState::Disconnected, false));
    assert_eq!(poll_step(A2dpState::Disconnected, A2dpState::Unknown), (A2dpState::Disconnected, false));
    assert_eq!(poll_step(A2dpState::Disconnected, A2dpState::Connected), (A2dpState::Connected, true));
    assert_eq!(route_verdict(A2dpState::Connected), Ok("verified"));
    assert_eq!(
        route_verdict(A2dpState::Unknown),
        Err("audio policy was applied, but A2DP route verification was unavailable".to_string())
    );
    assert!(route_verdict(A2dpState::Disconnected).unwrap_err().contains("explicitly disconnected and reconnected"));
}

#[test]
fn audioserver_pid_is_read_from_pidof_or_the_property() {
    assert_eq!(pid_from_pidof("  1234 5678\n"), Some(1234));
    assert_eq!(pid_from_pidof("\n"), None);
    assert_eq!(pid_from_pidof("12a4"), None);
    assert_eq!(pid_from_property(" 42\n"), Some(42));
    assert_eq!(pid_from_property("4 2"), None);
}
