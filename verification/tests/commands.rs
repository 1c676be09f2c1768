use speakoflow::commands::assistant::{
    check_font_size, check_kokoro_dtype, check_panel_size, check_provider_known, check_tts_engine,
    change_assistant_model_setting, clamp_max_history_messages, speaks_in_panel, tts_test_sample, KOKORO_TEST_REFUSAL,
    TTS_TEST_SAMPLE,
};
use speakoflow::commands::autolearn::{auto_learn_status, dedupe, keep_learned_word};
use speakoflow::commands::meetings::{
    meeting_language, meeting_title, new_meeting_title, page_size, require_text, system_audio_status, MAX_PAGE_SIZE,
};
use speakoflow::commands::stt_cloud::{
    cloud_stt_key_status, describe_unavailable, set_cloud_stt_api_key, set_cloud_stt_base_url,
    set_cloud_stt_model, set_cloud_stt_provider, CloudSttResolutionError, CloudSttUnavailableReason,
};
use speakoflow::platform::Platform;
use speakoflow::settings::{AppSettings, AssistantScreenAccessMode};

#[test]
fn blank_entries_are_dropped() {
    assert_eq!(
        dedupe(vec!["  ".into(), "Barali".into(), "".into()]),
        vec!["Barali".to_string()]
    );
}

#[test]
fn duplicates_are_removed_case_insensitively() {
    assert_eq!(
        dedupe(vec!["Barali".into(), "barali".into(), "BARALI".into()]),
        vec!["Barali".to_string()]
    );
}

#[test]
fn the_first_spelling_wins() {
    assert_eq!(
        dedupe(vec!["Kubernetes".into(), "kubernetes".into()]),
        vec!["Kubernetes".to_string()]
    );
}

#[test]
fn entries_are_trimmed() {
    assert_eq!(
        dedupe(vec!["  Barali  ".into()]),
        vec!["Barali".to_string()]
    );
}

#[test]
fn an_empty_list_stays_empty() {
    assert!(dedupe(Vec::new()).is_empty());
}

#[test]
fn keeping_a_learned_word_moves_it_to_the_dictionary() {
    let mut custom = vec!["Priya".to_string()];
    let mut learned = vec!["barali".to_string(), "Kubernetes".to_string()];
    assert_eq!(keep_learned_word(&mut custom, &mut learned, "  BARALI "), Ok(()));
    assert_eq!(learned, vec!["Kubernetes".to_string()]);
    assert_eq!(custom, vec!["Priya".to_string(), "BARALI".to_string()]);
    assert_eq!(keep_learned_word(&mut custom, &mut learned, "kubernetes"), Ok(()));
    assert!(learned.is_empty());
    // Already in the dictionary in another casing: not added twice.
    assert_eq!(keep_learned_word(&mut custom, &mut learned, "priya"), Ok(()));
    assert_eq!(custom.len(), 3);
}

#[test]
fn keeping_a_blank_word_is_refused() {
    let mut custom = Vec::new();
    let mut learned = vec!["x".to_string()];
    assert_eq!(
        keep_learned_word(&mut custom, &mut learned, "   "),
        Err("A word cannot be empty.".to_string())
    );
    assert_eq!(learned, vec!["x".to_string()]);
    assert!(custom.is_empty());
}

#[test]
fn the_status_reports_support_switch_and_list() {
    let settings = AppSettings {
        flow_enabled: false,
        flow_phrase: String::new(),
        flow_screen_access: false,
        assistant_provider: None,
        assistant_models: Vec::new(),
        post_process_api_keys: Vec::new(),
        auto_learn_corrections: true,
        custom_words: Vec::new(),
        learned_words: vec!["Barali".to_string()],
        assistant_screen_access_mode: AssistantScreenAccessMode::Off,
    };
    let status = auto_learn_status(&settings, Platform::Linux);
    assert!(!status.supported);
    assert!(status.enabled);
    assert_eq!(status.learned, vec!["Barali".to_string()]);
    assert_eq!(status.max_learned, 200);
    assert!(auto_learn_status(&settings, Platform::Windows).supported);
}

#[test]
fn a_zero_page_size_becomes_one() {
    assert_eq!(page_size(Some(0), 30), 1);
}

#[test]
fn a_missing_page_size_uses_the_default() {
    assert_eq!(page_size(None, 30), 30);
}

#[test]
fn an_absurd_page_size_is_capped() {
    assert_eq!(page_size(Some(u32::MAX), 30), MAX_PAGE_SIZE);
}

#[test]
fn blank_text_is_rejected() {
    assert!(require_text("   \n", "A meeting title").is_err());
}

#[test]
fn text_is_stored_trimmed() {
    assert_eq!(
        require_text("  Standup  ", "A meeting title"),
        Ok("Standup".to_string())
    );
}

#[test]
fn a_blank_value_names_what_was_missing() {
    assert_eq!(
        require_text("", "A speaker name"),
        Err("A speaker name cannot be empty.".to_string())
    );
}

#[test]
fn a_new_meeting_is_titled_and_tagged() {
    assert_eq!(meeting_title(Some("  Standup ".into()), "2026-01-01 09:00".into()), "Standup");
    assert_eq!(meeting_title(Some("   ".into()), "2026-01-01 09:00".into()), "2026-01-01 09:00");
    assert_eq!(meeting_title(None, "2026-01-01 09:00".into()), "2026-01-01 09:00");
    assert_eq!(meeting_language(Some(" de ".into()), "en"), Some("de".to_string()));
    assert_eq!(meeting_language(Some("  ".into()), " en "), Some("en".to_string()));
    assert_eq!(meeting_language(None, "  "), None);
}

#[test]
fn system_audio_help_is_offered_only_on_macos() {
    let devices = vec!["BlackHole 2ch".to_string()];
    let mac = system_audio_status(Platform::MacOs, &devices);
    assert!(mac.supported);
    assert!(mac.help.unwrap().contains("System Audio Only"));
    let windows = system_audio_status(Platform::Windows, &[]);
    assert!(windows.supported);
    assert!(windows.help.is_none());
    assert!(!system_audio_status(Platform::Linux, &[]).supported);
}

#[test]
fn every_unavailable_reason_has_its_message() {
    let error = |reason, id: Option<&str>, label: Option<&str>| CloudSttResolutionError {
        reason,
        provider_id: id.map(str::to_string),
        provider_label: label.map(str::to_string),
    };
    assert_eq!(
        describe_unavailable(error(CloudSttUnavailableReason::NotEnabled, None, None)),
        "Cloud transcription is turned off"
    );
    assert_eq!(
        describe_unavailable(error(CloudSttUnavailableReason::SelectedProviderMissing, Some("acme"), None)),
        "Unknown provider: acme"
    );
    assert_eq!(
        describe_unavailable(error(CloudSttUnavailableReason::SelectedProviderMissing, None, None)),
        "Unknown provider: (none)"
    );
    assert_eq!(
        describe_unavailable(error(CloudSttUnavailableReason::MissingApiKey, None, Some("Deepgram"))),
        "Add an API key for Deepgram first"
    );
    assert_eq!(
        describe_unavailable(error(CloudSttUnavailableReason::NoModelConfigured, None, None)),
        "Choose a model for this provider first"
    );
}

#[test]
fn a_key_counts_only_when_it_is_not_blank() {
    let ids = vec!["a".to_string(), "b".to_string(), "c".to_string()];
    let keys = vec![
        ("a".to_string(), "sk-123".to_string()),
        ("b".to_string(), "   ".to_string()),
    ];
    assert_eq!(
        cloud_stt_key_status(&ids, &keys),
        vec![
            ("a".to_string(), true),
            ("b".to_string(), false),
            ("c".to_string(), false)
        ]
    );
}

#[test]
fn a_new_meeting_is_titled_by_its_start_time_unless_named() {
    assert_eq!(new_meeting_title(Some("  Standup ".to_string())), "Standup");
    let stamped = new_meeting_title(Some("   ".to_string()));
    let bytes = stamped.as_bytes();
    assert_eq!(stamped.len(), "2024-05-01 14:30".len());
    assert_eq!(bytes[4], b'-');
    assert_eq!(bytes[7], b'-');
    assert_eq!(bytes[10], b' ');
    assert_eq!(bytes[13], b':');
    assert_eq!(new_meeting_title(None).len(), 16);
}

#[test]
fn only_known_setting_values_are_accepted() {
    assert_eq!(check_font_size("medium"), Ok(()));
    assert_eq!(check_font_size("huge"), Err("Unknown font size: huge".to_string()));
    assert_eq!(check_tts_engine("elevenlabs"), Ok(()));
    assert_eq!(check_tts_engine("Azure"), Err("Unknown TTS engine: Azure".to_string()));
    assert_eq!(check_kokoro_dtype("q4f16"), Ok(()));
    assert_eq!(check_kokoro_dtype("int8"), Err("Unknown Kokoro dtype: int8".to_string()));
    assert_eq!(check_panel_size("standard"), Ok(()));
    assert_eq!(check_panel_size("medium"), Err("Unknown panel size: medium".to_string()));
}

#[test]
fn an_assistant_provider_must_be_configured_first() {
    let ids = vec!["openai".to_string(), "groq".to_string()];
    assert_eq!(check_provider_known(&ids, "groq"), Ok(()));
    assert_eq!(check_provider_known(&ids, "mistral"), Err("Unknown provider: mistral".to_string()));
    assert_eq!(check_provider_known(&[], "openai"), Err("Unknown provider: openai".to_string()));
}

#[test]
fn the_history_setting_is_capped_and_the_voice_routed() {
    assert_eq!(clamp_max_history_messages(12), 12);
    assert_eq!(clamp_max_history_messages(5_000), 200);
    assert!(speaks_in_panel("kokoro"));
    assert!(!speaks_in_panel("openai"));
    assert_eq!(tts_test_sample("openai"), Ok(TTS_TEST_SAMPLE));
    assert_eq!(tts_test_sample("kokoro"), Err(KOKORO_TEST_REFUSAL.to_string()));
}

fn pairs(v: &[(&str, &str)]) -> Vec<(String, String)> {
    v.iter().map(|(k, x)| (k.to_string(), x.to_string())).collect()
}

#[test]
fn a_provider_setting_reads_back_what_was_written() {
    let mut keys = pairs(&[("openai", "old"), ("groq", "g")]);
    set_cloud_stt_api_key(&mut keys, "openai", "  sk-new  ");
    assert_eq!(keys, pairs(&[("openai", "sk-new"), ("groq", "g")]));
    set_cloud_stt_api_key(&mut keys, "deepgram", "dg");
    assert_eq!(keys, pairs(&[("openai", "sk-new"), ("groq", "g"), ("deepgram", "dg")]));

    let mut models = Vec::new();
    set_cloud_stt_model(&mut models, "groq", " whisper-large-v3 ");
    assert_eq!(models, pairs(&[("groq", "whisper-large-v3")]));

    let mut assistant_models = pairs(&[("openai", "gpt-4o")]);
    change_assistant_model_setting(&mut assistant_models, "openai", " gpt-4.1 ".to_string());
    assert_eq!(assistant_models, pairs(&[("openai", " gpt-4.1 ")]));
}

#[test]
fn a_blank_address_removes_the_override() {
    let mut urls = pairs(&[("groq", "https://a"), ("openai", "https://b")]);
    set_cloud_stt_base_url(&mut urls, "groq", "   ");
    assert_eq!(urls, pairs(&[("openai", "https://b")]));
    set_cloud_stt_base_url(&mut urls, "groq", " https://proxy.local/v1 ");
    assert_eq!(urls, pairs(&[("openai", "https://b"), ("groq", "https://proxy.local/v1")]));
}

#[test]
fn only_a_configured_provider_can_be_selected() {
    let ids = vec!["groq".to_string(), "openai".to_string()];
    let mut active = "groq".to_string();
    assert!(!set_cloud_stt_provider(&ids, &mut active, "mistral"));
    assert_eq!(active, "groq");
    assert!(set_cloud_stt_provider(&ids, &mut active, "openai"));
    assert_eq!(active, "openai");
}
