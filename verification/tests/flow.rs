use speakoflow::assistant::turn::{resolve_turn_llm, ToolCall, TurnSetupError};
use speakoflow::flow::{
    finish_flow_text, flow_round_step, flow_system_prompt, flow_tool_replies, normalize_token,
    plan_flow, resolve_flow_llm, strip_activation_phrase, FlowPlan, FlowRoundStep,
    FlowToolReply, FLOW_NO_CONTENT, MAX_FLOW_TOOL_ROUNDS, flow_generation_outcome,
    flow_llm_or_error, FLOW_NOT_CONFIGURED, FLOW_TIMED_OUT,
};
use speakoflow::settings::{AppSettings, AssistantScreenAccessMode, PostProcessProvider};

#[test]
fn phrase_matches_with_punctuation_and_case() {
    assert_eq!(
        strip_activation_phrase("Hey Flow, write an email.", "Hey Flow"),
        Some("write an email.".to_string())
    );
    assert_eq!(
        strip_activation_phrase("hey flow write an email", "Hey Flow"),
        Some("write an email".to_string())
    );
    assert_eq!(
        strip_activation_phrase("Hey, Flow: draft a reply", "Hey Flow"),
        Some("draft a reply".to_string())
    );
}

#[test]
fn phrase_only_yields_empty_command() {
    assert_eq!(
        strip_activation_phrase("Hey Flow.", "Hey Flow"),
        Some(String::new())
    );
    assert_eq!(
        strip_activation_phrase("  hey flow  ", "Hey Flow"),
        Some(String::new())
    );
}

#[test]
fn non_matching_transcripts_pass_through() {
    assert_eq!(strip_activation_phrase("Hello there", "Hey Flow"), None);
    assert_eq!(
        strip_activation_phrase("Hey, please flow with it", "Hey Flow"),
        None
    );
    assert_eq!(
        strip_activation_phrase("So hey flow do this", "Hey Flow"),
        None
    );
    assert_eq!(strip_activation_phrase("", "Hey Flow"), None);
}

#[test]
fn phrase_mid_sentence_does_not_trigger() {
    assert_eq!(
        strip_activation_phrase("I said hey flow yesterday", "Hey Flow"),
        None
    );
}

#[test]
fn custom_phrase_is_respected() {
    assert_eq!(
        strip_activation_phrase("Okay computer, write a poem", "Okay Computer"),
        Some("write a poem".to_string())
    );
    assert_eq!(
        strip_activation_phrase("Hey Flow write a poem", "Okay Computer"),
        None
    );
}

#[test]
fn command_keeps_original_formatting() {
    assert_eq!(
        strip_activation_phrase("Hey Flow, write: Dear Sam,\nSee you Monday.", "Hey Flow"),
        Some("write: Dear Sam,\nSee you Monday.".to_string())
    );
}

#[test]
fn empty_phrase_never_matches() {
    assert_eq!(strip_activation_phrase("anything", ""), None);
    assert_eq!(strip_activation_phrase("anything", " , "), None);
}

#[test]
fn tokens_are_compared_without_case_or_punctuation() {
    assert_eq!(normalize_token("Hey,"), "hey");
    assert_eq!(normalize_token("--"), "");
    assert_eq!(normalize_token("Flow2!"), "flow2");
}

#[test]
fn punctuation_words_between_phrase_words_are_skipped() {
    assert_eq!(
        strip_activation_phrase("Hey — Flow — summarize this", "Hey Flow"),
        Some("summarize this".to_string())
    );
}

fn settings(enabled: bool, model: &str) -> AppSettings {
    AppSettings {
        flow_enabled: enabled,
        flow_phrase: "Hey Flow".to_string(),
        flow_screen_access: false,
        assistant_provider: Some(PostProcessProvider {
            id: "openai".to_string(),
            label: "OpenAI".to_string(),
            base_url: "https://api.openai.com/v1".to_string(),
        }),
        assistant_models: vec![
            ("other".to_string(), "x".to_string()),
            ("openai".to_string(), model.to_string()),
        ],
        post_process_api_keys: vec![("openai".to_string(), "sk-test".to_string())],
        auto_learn_corrections: false,
        custom_words: Vec::new(),
        learned_words: Vec::new(),
        assistant_screen_access_mode: AssistantScreenAccessMode::Manual,
    }
}

#[test]
fn flow_uses_the_assistant_provider_model_and_key() {
    let llm = resolve_flow_llm(&settings(true, "gpt-4o-mini")).expect("configured");
    assert_eq!(llm.provider.id, "openai");
    assert_eq!(llm.model, "gpt-4o-mini");
    assert_eq!(llm.api_key, "sk-test");
    assert!(resolve_flow_llm(&settings(true, "   ")).is_none());
    let mut none = settings(true, "gpt-4o-mini");
    none.assistant_provider = None;
    assert!(resolve_flow_llm(&none).is_none());
}

#[test]
fn a_plan_for_every_case() {
    assert_eq!(
        plan_flow(&settings(false, "m"), "Hey Flow write a poem"),
        FlowPlan::NotFlow
    );
    assert_eq!(
        plan_flow(&settings(true, "m"), "Please write a poem"),
        FlowPlan::NotFlow
    );
    assert_eq!(
        plan_flow(&settings(true, ""), "Hey Flow write a poem"),
        FlowPlan::Unconfigured
    );
    assert_eq!(plan_flow(&settings(true, "m"), "Hey Flow."), FlowPlan::EmptyCommand);
    assert_eq!(
        plan_flow(&settings(true, "m"), "Hey Flow, write a poem"),
        FlowPlan::Generate {
            command: "write a poem".to_string()
        }
    );
}

#[test]
fn the_screen_tool_is_described_only_when_allowed() {
    let plain = flow_system_prompt(false);
    let with_tool = flow_system_prompt(true);
    assert!(plain.starts_with("You are Flow, a silent writing engine"));
    assert!(!plain.contains("capture_screen"));
    assert!(with_tool.starts_with(&plain));
    assert!(with_tool.contains("capture_screen() ONCE"));
}

fn call(name: &str) -> ToolCall {
    ToolCall {
        id: format!("id-{}", name),
        name: name.to_string(),
        arguments: "{}".to_string(),
        thought_signature: None,
    }
}

#[test]
fn only_the_first_capture_of_a_command_is_taken() {
    let calls = vec![call("capture_screen"), call("capture_screen"), call("web_search")];
    let (replies, captured) = flow_tool_replies(&calls, false);
    assert_eq!(
        replies,
        vec![
            FlowToolReply::CaptureScreen,
            FlowToolReply::AlreadyCaptured,
            FlowToolReply::UnknownTool
        ]
    );
    assert!(captured);
    let (replies, captured) = flow_tool_replies(&[call("capture_screen")], true);
    assert_eq!(replies, vec![FlowToolReply::AlreadyCaptured]);
    assert!(captured);
    let (replies, captured) = flow_tool_replies(&[], false);
    assert!(replies.is_empty());
    assert!(!captured);
}

#[test]
fn flow_rounds_end_on_text_or_at_the_cap() {
    assert_eq!(flow_round_step(0, 0), FlowRoundStep::Finish);
    assert_eq!(flow_round_step(1, 0), FlowRoundStep::AnswerTools);
    assert_eq!(flow_round_step(2, 1), FlowRoundStep::AnswerTools);
    assert_eq!(flow_round_step(1, MAX_FLOW_TOOL_ROUNDS - 1), FlowRoundStep::GiveUp);
    assert_eq!(flow_round_step(0, MAX_FLOW_TOOL_ROUNDS - 1), FlowRoundStep::Finish);
}

#[test]
fn blank_generations_are_not_pasted() {
    assert_eq!(finish_flow_text("  Dear Sam,\nSee you.\n "), Ok("Dear Sam,\nSee you.".to_string()));
    assert_eq!(finish_flow_text(" \n\t"), Err(FLOW_NO_CONTENT.to_string()));
    assert_eq!(FLOW_NO_CONTENT, "Flow returned no content");
}

#[test]
fn a_turn_without_a_provider_or_model_says_which_is_missing() {
    let ok = resolve_turn_llm(&settings(true, "gpt-4o")).expect("configured");
    assert_eq!(ok.model, "gpt-4o");
    assert_eq!(ok.api_key, "sk-test");
    assert_eq!(ok.provider.id, "openai");

    let err = resolve_turn_llm(&settings(true, "  ")).err().expect("no model");
    assert_eq!(err.code(), "no_model");
    assert_eq!(
        err.message(),
        "No model configured for provider 'OpenAI'. Set one in Settings \u{2192} Assistant."
    );
    assert!(matches!(err, TurnSetupError::NoModel { .. }));

    let mut none = settings(true, "gpt-4o");
    none.assistant_provider = None;
    let err = resolve_turn_llm(&none).err().expect("no provider");
    assert_eq!(err.code(), "no_provider");
    assert_eq!(
        err.message(),
        "No assistant provider configured. Pick one in Settings \u{2192} Assistant."
    );
}

#[test]
fn a_flow_generation_fails_when_unconfigured_or_too_slow() {
    assert_eq!(FLOW_NOT_CONFIGURED, "Flow is not configured");
    assert_eq!(FLOW_TIMED_OUT, "Flow generation timed out");
    assert_eq!(
        flow_llm_or_error(&settings(true, "  ")).err(),
        Some("Flow is not configured".to_string())
    );
    assert_eq!(
        flow_llm_or_error(&settings(true, "gpt-4o-mini")).ok().map(|l| l.model),
        Some("gpt-4o-mini".to_string())
    );
    assert_eq!(flow_generation_outcome(None), Err("Flow generation timed out".to_string()));
    assert_eq!(
        flow_generation_outcome(Some(Err("Local model failed to start: x".to_string()))),
        Err("Local model failed to start: x".to_string())
    );
    assert_eq!(flow_generation_outcome(Some(Ok("  Dear Sam,\n  ".to_string()))), Ok("Dear Sam,".to_string()));
    assert_eq!(flow_generation_outcome(Some(Ok(" \n ".to_string()))), Err(FLOW_NO_CONTENT.to_string()));
}
