use speakoflow::autolearn::detect::Correction;
use speakoflow::autolearn::learner::{
    known_words, on_field_text, remember, watch_wanted, FieldVerdict, MAX_LEARNED_WORDS,
};
use speakoflow::settings::{AppSettings, AssistantScreenAccessMode};

fn settings_with(custom: &[&str], learned: &[&str]) -> AppSettings {
    AppSettings {
        flow_enabled: false,
        flow_phrase: "Hey Flow".to_string(),
        flow_screen_access: false,
        assistant_provider: None,
        assistant_models: Vec::new(),
        post_process_api_keys: Vec::new(),
        auto_learn_corrections: false,
        custom_words: custom.iter().map(|word| word.to_string()).collect(),
        learned_words: learned.iter().map(|word| word.to_string()).collect(),
        assistant_screen_access_mode: AssistantScreenAccessMode::Manual,
    }
}

#[test]
fn known_words_span_both_lists() {
    let known = known_words(&settings_with(&["Barali"], &["Kubernetes"]));
    assert!(known.contains(&"barali".to_string()));
    assert!(known.contains(&"kubernetes".to_string()));
    assert_eq!(known.len(), 2);
}

#[test]
fn known_words_are_case_folded() {
    let known = known_words(&settings_with(&["BARALI"], &[]));
    assert!(known.contains(&"barali".to_string()));
}

#[test]
fn no_words_means_an_empty_set() {
    assert!(known_words(&settings_with(&[], &[])).is_empty());
}

#[test]
fn the_cap_is_bounded() {
    assert!(MAX_LEARNED_WORDS >= 50);
    assert!(MAX_LEARNED_WORDS <= 1_000);
}

#[test]
fn a_word_in_both_lists_is_known_once() {
    let known = known_words(&settings_with(&["Barali", "barali"], &["BARALI", "Priya"]));
    assert_eq!(known, vec!["barali".to_string(), "priya".to_string()]);
}

fn correction(from: &str, to: &str) -> Correction {
    Correction {
        from: from.to_string(),
        to: to.to_string(),
    }
}

#[test]
fn remembering_appends_only_unknown_words() {
    let settings = settings_with(&["Priya"], &["Kubernetes"]);
    let r = remember(
        &settings,
        &[correction("priya", "PRIYA"), correction("brali", "Barali")],
    );
    assert_eq!(r.added, vec!["Barali".to_string()]);
    assert_eq!(
        r.learned,
        vec!["Kubernetes".to_string(), "Barali".to_string()]
    );
}

#[test]
fn remembering_nothing_new_leaves_the_list_alone() {
    let settings = settings_with(&[], &["Kubernetes"]);
    let r = remember(&settings, &[correction("kubernets", "kubernetes")]);
    assert!(r.added.is_empty());
    assert_eq!(r.learned, vec!["Kubernetes".to_string()]);
}

#[test]
fn the_oldest_learned_words_are_dropped_at_the_cap() {
    let learned: Vec<String> = (0..MAX_LEARNED_WORDS).map(|i| format!("word{i}")).collect();
    let refs: Vec<&str> = learned.iter().map(String::as_str).collect();
    let settings = settings_with(&[], &refs);
    let r = remember(&settings, &[correction("newwrd", "Newword")]);
    assert_eq!(r.learned.len(), MAX_LEARNED_WORDS);
    assert_eq!(r.learned[0], "word1");
    assert_eq!(r.learned[MAX_LEARNED_WORDS - 1], "Newword");
}

#[test]
fn a_reading_with_the_feature_off_stops_the_watch() {
    let settings = settings_with(&[], &[]);
    assert!(matches!(
        on_field_text(&settings, "email brali", "email Barali"),
        FieldVerdict::SwitchedOff
    ));
}

#[test]
fn a_reading_without_a_correction_keeps_watching() {
    let mut settings = settings_with(&[], &[]);
    settings.auto_learn_corrections = true;
    assert!(matches!(
        on_field_text(&settings, "email brali about it", "email brali about it"),
        FieldVerdict::KeepWatching
    ));
}

#[test]
fn a_reading_with_a_correction_learns_it() {
    let mut settings = settings_with(&[], &[]);
    settings.auto_learn_corrections = true;
    match on_field_text(
        &settings,
        "email brali about the invoice",
        "email Barali about the invoice",
    ) {
        FieldVerdict::Learned(found) => {
            assert_eq!(
                found,
                vec![Correction { from: "brali".to_string(), to: "Barali".to_string() }]
            );
        }
        _ => panic!("expected a correction"),
    }
}

#[test]
fn a_reading_of_a_word_already_known_keeps_watching() {
    let mut settings = settings_with(&["barali"], &[]);
    settings.auto_learn_corrections = true;
    assert!(matches!(
        on_field_text(
            &settings,
            "email brali about the invoice",
            "email Barali about the invoice"
        ),
        FieldVerdict::KeepWatching
    ));
}

#[test]
fn only_a_transcript_with_text_starts_a_watch() {
    assert!(watch_wanted("hello", true));
    assert!(!watch_wanted("   ", true));
    assert!(!watch_wanted("hello", false));
}
