use speakoflow::assistant::conversation::ChatMessage;
use speakoflow::assistant::history::{
    auto_summary_request, current_datetime_line, summarize_request_text, summary_excerpt,
    FIRST_SUMMARY_HEAD, MERGE_SUMMARY_HEAD, MERGE_SUMMARY_MIDDLE, SUMMARIZE_INSTRUCTION,
    auto_summarize_range, history_limits, history_window, needs_small_body, summary_note,
    summary_turn_limits, AssistantConversation, SaveStep, SUMMARY_NOTE_PREFIX,
};

fn msg(role: &str, content: &str) -> ChatMessage {
    ChatMessage { role: role.to_string(), content: content.to_string() }
}

fn contents(v: &[ChatMessage]) -> Vec<String> {
    v.iter().map(|m| m.content.clone()).collect()
}

#[test]
fn cancellation_is_sticky_for_one_turn_and_cleared_by_the_next() {
    let mut conversation = AssistantConversation::new();
    assert!(!conversation.is_cancelled());
    conversation.request_cancel();
    assert!(conversation.is_cancelled());
    conversation.begin_turn();
    assert!(!conversation.is_cancelled());
}

#[test]
fn a_second_turn_is_refused_while_one_runs() {
    let mut conversation = AssistantConversation::new();
    assert!(conversation.try_claim_turn());
    assert!(conversation.is_busy());
    assert!(!conversation.try_claim_turn());
    conversation.release_turn();
    assert!(!conversation.is_busy());
    assert!(conversation.try_claim_turn());
}

#[test]
fn one_summarizing_pass_at_a_time() {
    let mut conversation = AssistantConversation::new();
    assert!(conversation.begin_summarizing());
    assert!(!conversation.begin_summarizing());
    conversation.end_summarizing();
    assert!(conversation.begin_summarizing());
    conversation.reset_rolling_summary();
    assert!(conversation.begin_summarizing());
}

#[test]
fn distillation_needs_two_user_turns_and_growth() {
    let mut conversation = AssistantConversation::new();
    conversation.push_message(msg("user", "hi"));
    conversation.push_message(msg("assistant", "hello"));
    assert!(conversation.take_distillable().is_none());
    conversation.push_message(msg("user", "remember I like tea"));
    let taken = conversation.take_distillable().expect("two user turns");
    assert_eq!(contents(&taken), vec!["hi", "hello", "remember I like tea"]);
    // Nothing new: the same content is not distilled twice.
    assert!(conversation.take_distillable().is_none());
    conversation.push_message(msg("assistant", "noted"));
    assert_eq!(conversation.take_distillable().map(|v| v.len()), Some(4));
    conversation.reset_distilled_marker();
    assert!(conversation.take_distillable().is_some());
    conversation.mark_distilled_current();
    assert!(conversation.take_distillable().is_none());
}

#[test]
fn a_branch_never_points_at_the_row_it_came_from() {
    let mut conversation = AssistantConversation::new();
    conversation.load_session(7, vec![msg("user", "a"), msg("assistant", "b")]);
    assert_eq!(conversation.session_id(), Some(7));
    conversation.store_rolling_summary("old".to_string(), 1);
    conversation.load_branch(vec![msg("user", "a")]);
    assert_eq!(conversation.session_id(), None);
    assert_eq!(conversation.messages().len(), 1);
    let (summary, upto) = conversation.rolling_summary();
    assert_eq!(summary, "");
    assert_eq!(upto, 0);
}

#[test]
fn a_deleted_row_is_forgotten_only_when_it_is_the_current_one() {
    let mut conversation = AssistantConversation::new();
    conversation.remember_session(3);
    conversation.forget_session_if(4);
    assert_eq!(conversation.session_id(), Some(3));
    conversation.forget_session_if(3);
    assert_eq!(conversation.session_id(), None);
    conversation.remember_session(5);
    conversation.store_rolling_summary("s".to_string(), 2);
    conversation.reset_session();
    assert_eq!(conversation.session_id(), None);
    assert_eq!(conversation.rolling_summary().1, 0);
}

#[test]
fn the_window_skips_summarized_and_current_messages() {
    let history = vec![
        msg("user", "one"),
        msg("assistant", "two"),
        msg("user", "three"),
        msg("assistant", "four"),
        msg("user", "five"),
    ];
    let kept = history_window(&history, 0, false, 10, usize::MAX);
    assert_eq!(contents(&kept), vec!["one", "two", "three", "four", "five"]);
    let kept = history_window(&history, 2, true, 10, usize::MAX);
    assert_eq!(contents(&kept), vec!["three", "four"]);
    let kept = history_window(&history, 0, false, 2, usize::MAX);
    assert_eq!(contents(&kept), vec!["four", "five"]);
    let kept = history_window(&history, 9, false, 10, usize::MAX);
    assert!(kept.is_empty());
}

#[test]
fn the_window_stops_at_the_byte_cap_but_keeps_the_newest() {
    let history = vec![msg("user", "aaaa"), msg("assistant", "bbbb"), msg("user", "cccccccc")];
    // The newest message alone is over the cap and still sent.
    let kept = history_window(&history, 0, false, 10, 3);
    assert_eq!(contents(&kept), vec!["cccccccc"]);
    let kept = history_window(&history, 0, false, 10, 12);
    assert_eq!(contents(&kept), vec!["bbbb", "cccccccc"]);
    let kept = history_window(&history, 0, false, 10, 16);
    assert_eq!(contents(&kept), vec!["aaaa", "bbbb", "cccccccc"]);
    // Bytes, not characters: "é" is two bytes.
    let history = vec![msg("user", "éé"), msg("user", "x")];
    let kept = history_window(&history, 0, false, 10, 4);
    assert_eq!(contents(&kept), vec!["x"]);
    let kept = history_window(&history, 0, false, 10, 5);
    assert_eq!(contents(&kept), vec!["éé", "x"]);
}

#[test]
fn history_limits_follow_the_provider() {
    assert_eq!(history_limits(true, true, 10), (4, 6_000));
    assert_eq!(history_limits(true, true, 2), (2, 6_000));
    assert_eq!(history_limits(true, false, 10), (10, 24_000));
    assert_eq!(history_limits(false, true, 10), (10, usize::MAX));
    assert_eq!(summary_turn_limits(3), (8, 24_000));
    assert_eq!(summary_turn_limits(20), (20, 24_000));
}

#[test]
fn small_bodies_are_for_local_and_azure_providers() {
    assert!(needs_small_body("builtin", ""));
    assert!(needs_small_body("custom", "https://X.OpenAI.AZURE.com/v1"));
    assert!(needs_small_body("ollama", "http://127.0.0.1:11434/v1"));
    assert!(needs_small_body("lmstudio", "http://LocalHost:1234"));
    assert!(!needs_small_body("openai", "https://api.openai.com/v1"));
}

#[test]
fn the_summary_note_is_left_out_when_blank() {
    assert_eq!(summary_note("  \n "), None);
    assert_eq!(
        summary_note("  earlier we planned a trip \n"),
        Some(format!("{}earlier we planned a trip", SUMMARY_NOTE_PREFIX))
    );
}

#[test]
fn older_messages_are_folded_once_the_window_overflows() {
    assert_eq!(auto_summarize_range(10, 0, 10), None);
    assert_eq!(auto_summarize_range(12, 0, 10), Some((0, 6)));
    assert_eq!(auto_summarize_range(20, 0, 2), Some((0, 16)));
    // What is not yet summarized fits the window: nothing to do.
    assert_eq!(auto_summarize_range(12, 8, 4), None);
    assert_eq!(auto_summarize_range(12, 2, 4), Some((2, 8)));
    // A summary length past the end is clamped.
    assert_eq!(auto_summarize_range(5, 50, 4), None);
}

#[test]
fn regenerating_takes_back_the_answer_and_the_question() {
    let mut conversation = AssistantConversation::new();
    conversation.push_message(msg("user", "first"));
    conversation.push_message(msg("assistant", "one"));
    conversation.push_message(msg("user", "what is this?\n[screenshot attached]"));
    conversation.push_message(msg("assistant", "a cat"));
    assert_eq!(conversation.take_last_exchange(), Some("what is this?".to_string()));
    assert_eq!(contents(conversation.messages()), vec!["first", "one"]);
    // The newest is an answer with its question before it.
    assert_eq!(conversation.take_last_exchange(), Some("first".to_string()));
    assert!(conversation.messages().is_empty());
    assert_eq!(conversation.take_last_exchange(), None);
}

#[test]
fn an_unanswered_question_is_taken_back_alone() {
    let mut conversation = AssistantConversation::new();
    conversation.push_message(msg("assistant", "hello"));
    conversation.push_message(msg("user", "again"));
    assert_eq!(conversation.take_last_exchange(), Some("again".to_string()));
    assert_eq!(contents(conversation.messages()), vec!["hello"]);
    // An answer with no question before it is dropped, and nothing is asked.
    assert_eq!(conversation.take_last_exchange(), None);
    assert!(conversation.messages().is_empty());
}

#[test]
fn summarizing_is_refused_while_busy_or_empty() {
    let mut conversation = AssistantConversation::new();
    assert!(!conversation.try_claim_summarize());
    assert!(!conversation.is_busy());
    conversation.push_message(msg("user", "hi"));
    assert!(conversation.try_claim_turn());
    assert!(!conversation.try_claim_summarize());
    conversation.release_turn();
    assert!(conversation.try_claim_summarize());
    assert!(conversation.is_busy());
}

#[test]
fn a_summary_replaces_the_conversation_unless_blank() {
    let mut conversation = AssistantConversation::new();
    conversation.push_message(msg("user", "a"));
    conversation.push_message(msg("assistant", "b"));
    assert!(!conversation.replace_with_summary("  \n "));
    assert_eq!(conversation.messages().len(), 2);
    assert!(conversation.replace_with_summary("  # Brief\n- a and b  "));
    assert_eq!(conversation.messages().len(), 1);
    assert_eq!(conversation.messages()[0].role, "assistant");
    assert_eq!(conversation.messages()[0].content, "# Brief\n- a and b");
}

#[test]
fn a_background_summary_covers_at_most_the_conversation() {
    let mut conversation = AssistantConversation::new();
    for i in 0..5 {
        conversation.push_message(msg("user", &i.to_string()));
    }
    assert!(!conversation.fold_into_summary("   ", 3));
    assert_eq!(conversation.rolling_summary().1, 0);
    assert!(conversation.fold_into_summary(" notes ", 3));
    assert_eq!(conversation.rolling_summary(), ("notes".to_string(), 3));
    assert!(conversation.fold_into_summary("more", 9));
    assert_eq!(conversation.rolling_summary(), ("more".to_string(), 5));
}

#[test]
fn an_excerpt_names_who_wrote_each_message() {
    let history = vec![msg("user", " hi "), msg("assistant", "hello\n"), msg("system", "x")];
    assert_eq!(summary_excerpt(&history, 0, 2), "User: hi\n\nAssistant: hello\n\n");
    assert_eq!(summary_excerpt(&history, 2, 3), "Assistant: x\n\n");
    assert_eq!(summary_excerpt(&history, 1, 1), "");
}

#[test]
fn the_first_summary_and_later_merges_are_asked_differently() {
    let history = vec![msg("user", "plan a trip"), msg("assistant", "to Rome")];
    assert_eq!(
        auto_summary_request("  ", &history, 0, 2),
        Some(format!("{}User: plan a trip\n\nAssistant: to Rome", FIRST_SUMMARY_HEAD))
    );
    assert_eq!(
        auto_summary_request(" trip planning ", &history, 1, 2),
        Some(format!(
            "{}trip planning{}Assistant: to Rome",
            MERGE_SUMMARY_HEAD, MERGE_SUMMARY_MIDDLE
        ))
    );
    assert_eq!(auto_summary_request("", &history, 1, 1), None);
    assert_eq!(auto_summary_request("", &history, 0, 3), None);
}

#[test]
fn the_summarize_request_starts_with_the_date() {
    let line = current_datetime_line();
    assert!(line.starts_with("Current date and time: "));
    assert!(line.ends_with(")."));
    let text = summarize_request_text();
    assert!(text.starts_with("Current date and time: "));
    assert!(text.ends_with(&format!("\n\n{}", SUMMARIZE_INSTRUCTION)));
}

#[test]
fn a_new_exchange_starts_empty_and_hands_over_what_to_remember() {
    let mut conversation = AssistantConversation::new();
    assert_eq!(conversation.reset_for_new_exchange().0, false);
    conversation.remember_session(11);
    conversation.push_message(msg("user", "I live in Lyon"));
    conversation.push_message(msg("assistant", "noted"));
    conversation.push_message(msg("user", "and I like tea"));
    let (reset, taken) = conversation.reset_for_new_exchange();
    assert!(reset);
    assert_eq!(taken.map(|v| v.len()), Some(3));
    assert!(conversation.messages().is_empty());
    assert_eq!(conversation.session_id(), None);
    // A short exchange is reset but teaches nothing.
    conversation.push_message(msg("user", "hi"));
    let (reset, taken) = conversation.reset_for_new_exchange();
    assert!(reset);
    assert!(taken.is_none());
}

#[test]
fn nothing_is_distilled_while_memory_is_off_or_incognito() {
    let mut conversation = AssistantConversation::new();
    conversation.push_message(msg("user", "one"));
    conversation.push_message(msg("user", "two"));
    assert!(conversation.distill_if_ended(false, false).is_none());
    assert!(conversation.distill_if_ended(true, true).is_none());
    assert!(conversation.distill_if_ended(true, false).is_some());
    assert!(conversation.distill_if_ended(true, false).is_none());
}

#[test]
fn a_conversation_is_saved_to_its_own_row() {
    let mut conversation = AssistantConversation::new();
    assert_eq!(conversation.save_step(), SaveStep::Skip);
    conversation.push_message(msg("user", "hi"));
    assert_eq!(conversation.save_step(), SaveStep::Create);
    conversation.remember_session(42);
    assert_eq!(conversation.save_step(), SaveStep::Update(42));
    conversation.load_branch(vec![msg("user", "hi")]);
    assert_eq!(conversation.save_step(), SaveStep::Create);
}

#[test]
fn clearing_detaches_from_the_saved_row() {
    let mut conversation = AssistantConversation::new();
    conversation.push_message(msg("user", "hi"));
    conversation.remember_session(9);
    conversation.store_rolling_summary("s".to_string(), 1);
    conversation.clear_conversation();
    assert!(conversation.messages().is_empty());
    assert_eq!(conversation.session_id(), None);
    assert_eq!(conversation.rolling_summary(), (String::new(), 0));
    assert_eq!(conversation.save_step(), SaveStep::Skip);
}

#[test]
fn the_datetime_line_names_the_day_and_the_zone() {
    let line = current_datetime_line();
    let shape = regex::Regex::new(
        r"^Current date and time: (Sunday|Monday|Tuesday|Wednesday|Thursday|Friday|Saturday), (January|February|March|April|May|June|July|August|September|October|November|December) [1-9][0-9]?, [0-9]{4}, (1[0-2]|[1-9]):[0-5][0-9] (AM|PM) \(UTC[+-][0-9]{2}:[0-5][0-9]\)\.$",
    )
    .unwrap();
    assert!(shape.is_match(&line), "unexpected line: {line}");
}
