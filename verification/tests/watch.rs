use speakoflow::autolearn::watch::{
    clip, resembles, supported, FieldWatch, POLL_INTERVAL_SECS, WATCH_FOR_SECS,
};
use speakoflow::platform::Platform;
use std::time::Duration;

#[test]
fn the_field_holding_the_transcript_is_recognised() {
    assert!(resembles(
        "please email Barali about the invoice",
        "please email brali about the invoice"
    ));
}

#[test]
fn surrounding_text_does_not_break_recognition() {
    assert!(resembles(
        "Hi team. please email Barali about the invoice. Thanks.",
        "please email brali about the invoice"
    ));
}

#[test]
fn an_unrelated_field_is_rejected() {
    assert!(!resembles(
        "https://example.com/some/unrelated/page",
        "please email brali about the invoice"
    ));
}

#[test]
fn an_empty_field_is_rejected() {
    assert!(!resembles("", "please email brali about the invoice"));
}

#[test]
fn one_corrected_word_does_not_reject_the_field() {
    assert!(resembles(
        "send Kubernetes config to Barali today",
        "send kubernets config to brali today"
    ));
}

#[test]
fn a_very_short_transcript_falls_back_to_exact_text() {
    assert!(resembles("yes", "yes"));
    assert!(resembles("I said yes to it", "yes"));
    assert!(!resembles("no", "yes"));
}

#[test]
fn recognition_ignores_casing() {
    assert!(resembles(
        "PLEASE EMAIL BARALI ABOUT THE INVOICE",
        "please email brali about the invoice"
    ));
}

#[test]
fn support_is_reported_honestly() {
    assert!(supported(Platform::Windows));
    assert!(!supported(Platform::MacOs));
    assert!(!supported(Platform::Linux));
    assert!(!supported(Platform::Other));
}

#[test]
fn the_watch_window_is_short_and_polls_several_times() {
    let watch_for = Duration::from_secs(WATCH_FOR_SECS);
    let poll_interval = Duration::from_secs(POLL_INTERVAL_SECS);
    assert!(watch_for <= Duration::from_secs(120));
    assert!(poll_interval < watch_for);
    assert!(watch_for.as_secs() / poll_interval.as_secs() >= 4);
}

#[test]
fn clipping_keeps_at_most_the_first_characters() {
    assert_eq!(clip("héllo wörld", 5), "héllo");
    assert_eq!(clip("short", 20), "short");
    assert_eq!(clip("", 3), "");
}

#[test]
fn a_field_is_watched_only_when_it_holds_the_transcript() {
    let mut watch = FieldWatch::new();
    assert!(!watch.is_watching());
    watch.begin(
        "please email brali about the invoice".to_string(),
        Some("please email brali about the invoice"),
        1_000,
    );
    assert!(watch.is_watching());
    assert_eq!(
        watch.pasted().map(|p| p.as_str()),
        Some("please email brali about the invoice")
    );
    // A later dictation replaces the watch; an unreadable field watches nothing.
    watch.begin("yes".to_string(), None, 2_000);
    assert!(!watch.is_watching());
}

#[test]
fn a_watch_polls_until_its_window_elapses() {
    let mut watch = FieldWatch::new();
    assert_eq!(watch.wait_secs(), 3600);
    watch.begin("yes".to_string(), Some("yes"), 10_000);
    assert_eq!(watch.wait_secs(), POLL_INTERVAL_SECS);
    assert!(watch.tick(12_000));
    assert!(watch.tick(10_000 + WATCH_FOR_SECS * 1000 - 1));
    assert!(!watch.tick(10_000 + WATCH_FOR_SECS * 1000));
    assert!(!watch.is_watching());
    assert!(!watch.tick(100_000));
}

#[test]
fn a_satisfied_read_or_a_vanished_control_ends_the_watch() {
    let mut watch = FieldWatch::new();
    watch.begin("yes".to_string(), Some("yes"), 0);
    watch.after_read(true, false);
    assert!(watch.is_watching());
    watch.after_read(true, true);
    assert!(!watch.is_watching());
    watch.begin("yes".to_string(), Some("yes"), 0);
    watch.after_read(false, false);
    assert!(!watch.is_watching());
    watch.begin("yes".to_string(), Some("yes"), 0);
    watch.cancel();
    assert!(!watch.is_watching());
}
