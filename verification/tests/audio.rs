use speakoflow::audio::loopback::{
    classify_cpal_error, find_monitor_source, find_virtual_loopback_device, loopback_supported,
    LoopbackError, MACOS_PERMISSION_HELP,
};
use speakoflow::audio::recorder::{
    is_microphone_access_denied, is_no_input_device_error, level_window_size, preferred_config,
    ConfigRange, SampleFormatKind,
};
use speakoflow::platform::Platform;

#[test]
fn detects_access_is_denied() {
    assert!(is_microphone_access_denied("Access is denied"));
}

#[test]
fn detects_permission_denied() {
    assert!(is_microphone_access_denied("permission denied"));
}

#[test]
fn detects_windows_error_code() {
    assert!(is_microphone_access_denied("WASAPI error: 0x80070005"));
}

#[test]
fn does_not_match_unrelated_errors() {
    assert!(!is_microphone_access_denied("device not found"));
}

#[test]
fn detects_no_input_device() {
    assert!(is_no_input_device_error("No input device found"));
}

#[test]
fn detects_coreaudio_config_error() {
    assert!(is_no_input_device_error(
        "Failed to fetch preferred config: CoreAudio error"
    ));
}

#[test]
fn does_not_match_other_errors_for_no_device() {
    assert!(!is_no_input_device_error("permission denied"));
    assert!(!is_no_input_device_error("device not found"));
}

#[test]
fn an_unrelated_error_is_not_a_missing_device() {
    assert!(!is_no_input_device_error("Some other error"));
    assert!(!is_no_input_device_error("Failed to fetch preferred config: WASAPI error"));
}

#[test]
fn errors_render_their_user_facing_message() {
    let e = LoopbackError::Unsupported("no device here".into());
    assert_eq!(e.message(), "no device here");
}

#[test]
fn macos_help_names_the_silent_permission() {
    assert!(MACOS_PERMISSION_HELP.contains("System Audio Only"));
}

#[test]
fn a_refusal_is_a_permission_error_and_macos_explains_it() {
    match classify_cpal_error("Access Denied by host", Platform::Linux) {
        LoopbackError::PermissionDenied(m) => assert_eq!(m, "Access Denied by host"),
        other => panic!("unexpected {other:?}"),
    }
    match classify_cpal_error("not authorized", Platform::MacOs) {
        LoopbackError::PermissionDenied(m) => {
            assert!(m.starts_with("not authorized. macOS needs"));
            assert!(m.ends_with(MACOS_PERMISSION_HELP));
        }
        other => panic!("unexpected {other:?}"),
    }
    match classify_cpal_error("stream closed", Platform::MacOs) {
        LoopbackError::Failed(m) => assert_eq!(m, "stream closed"),
        other => panic!("unexpected {other:?}"),
    }
}

fn names(list: &[&str]) -> Vec<String> {
    list.iter().map(|s| s.to_string()).collect()
}

#[test]
fn a_monitor_suffix_beats_a_name_that_mentions_monitor() {
    let devices = names(&["Studio Monitor Mic", "alsa_output.pci.analog-stereo.monitor"]);
    assert_eq!(find_monitor_source(&devices), Some(1));
    assert_eq!(find_monitor_source(&names(&["Studio monitor mic", "Mic"])), Some(0));
    assert_eq!(find_monitor_source(&names(&["Mic", "PipeWire LOOPBACK"])), Some(1));
    assert_eq!(find_monitor_source(&names(&["Mic", "Webcam"])), None);
}

#[test]
fn the_most_preferred_virtual_device_wins() {
    let devices = names(&["Soundflower (2ch)", "MacBook Mic", "BlackHole 16ch"]);
    assert_eq!(find_virtual_loopback_device(&devices), Some(2));
    assert_eq!(find_virtual_loopback_device(&names(&["Aggregate Device", "Multi-Output Device"])), Some(1));
    assert_eq!(find_virtual_loopback_device(&names(&["MacBook Mic"])), None);
}

#[test]
fn loopback_support_depends_on_the_platform_and_its_devices() {
    assert!(loopback_supported(Platform::Windows, &[]));
    assert!(!loopback_supported(Platform::Linux, &names(&["Mic"])));
    assert!(loopback_supported(Platform::Linux, &names(&["x.monitor"])));
    assert!(loopback_supported(Platform::MacOs, &names(&["BlackHole 2ch"])));
    assert!(!loopback_supported(Platform::Other, &names(&["x.monitor"])));
}

#[test]
fn the_level_window_follows_the_sample_rate() {
    assert_eq!(level_window_size(48_000), 2048);
    assert_eq!(level_window_size(44_100), 1024);
    assert_eq!(level_window_size(16_000), 512);
    assert_eq!(level_window_size(8_000), 256);
    assert_eq!(level_window_size(0), 256);
    assert_eq!(level_window_size(u32::MAX), 2048);
    // 23,040 Hz aims at 768 samples, halfway between 512 and 1024: the smaller wins.
    assert_eq!(level_window_size(23_040), 512);
}

fn range(min: u32, max: u32, format: SampleFormatKind) -> ConfigRange {
    ConfigRange { min_sample_rate: min, max_sample_rate: max, format }
}

#[test]
fn the_device_rate_is_kept_and_float_preferred() {
    let ranges = vec![
        range(8_000, 48_000, SampleFormatKind::I32),
        range(44_100, 44_100, SampleFormatKind::F32),
        range(8_000, 96_000, SampleFormatKind::I16),
        range(8_000, 96_000, SampleFormatKind::F32),
        range(8_000, 96_000, SampleFormatKind::F32),
    ];
    // 48 kHz: the F32 range that covers it, the first of the two.
    assert_eq!(preferred_config(&ranges, 48_000), Some(3));
    // 44.1 kHz: the first F32 range covering it.
    assert_eq!(preferred_config(&ranges, 44_100), Some(1));
    // Nothing covers 192 kHz: the device default is used.
    assert_eq!(preferred_config(&ranges, 192_000), None);
    let ints = vec![range(8_000, 48_000, SampleFormatKind::Other), range(8_000, 48_000, SampleFormatKind::I32)];
    assert_eq!(preferred_config(&ints, 16_000), Some(1));
    assert_eq!(preferred_config(&[], 16_000), None);
}
