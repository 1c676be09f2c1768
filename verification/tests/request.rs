use speakoflow::assistant::conversation::ChatMessage;
use speakoflow::assistant::request::{
    strip_visuals_for_retry, text_message, turn_request, user_message, ContentPart,
    MessageContent, RequestMessage, VISION_DROPPED_NOTE,
};

fn msg(role: &str, content: &str) -> ChatMessage {
    ChatMessage { role: role.to_string(), content: content.to_string() }
}

fn text_of(m: &RequestMessage) -> Option<&str> {
    match &m.content {
        MessageContent::Text(t) => Some(t.as_str()),
        MessageContent::Parts(_) => None,
    }
}

fn has_image(m: &RequestMessage) -> bool {
    match &m.content {
        MessageContent::Text(_) => false,
        MessageContent::Parts(parts) => {
            parts.iter().any(|p| matches!(p, ContentPart::ImageUrl(_)))
        }
    }
}

#[test]
fn a_request_is_system_summary_history_then_the_message() {
    let history = vec![msg("user", "earlier question"), msg("assistant", "earlier answer")];
    let request = turn_request(
        "persona",
        Some("summary note".to_string()),
        &history,
        "what now?".to_string(),
        &[],
    );
    let shape: Vec<(&str, Option<&str>)> =
        request.iter().map(|m| (m.role.as_str(), text_of(m))).collect();
    assert_eq!(
        shape,
        vec![
            ("system", Some("persona")),
            ("system", Some("summary note")),
            ("user", Some("earlier question")),
            ("assistant", Some("earlier answer")),
            ("user", Some("what now?")),
        ]
    );
    let request = turn_request("persona", None, &[], "hi".to_string(), &[]);
    assert_eq!(request.len(), 2);
}

#[test]
fn pictures_ride_as_parts_after_the_text() {
    let visuals = vec!["data:image/jpeg;base64,AAAA".to_string(), "data:image/png;base64,BB".to_string()];
    let m = user_message("what is this?".to_string(), &visuals);
    assert_eq!(m.role, "user");
    assert_eq!(
        m.content,
        MessageContent::Parts(vec![
            ContentPart::Text("what is this?".to_string()),
            ContentPart::ImageUrl("data:image/jpeg;base64,AAAA".to_string()),
            ContentPart::ImageUrl("data:image/png;base64,BB".to_string()),
        ])
    );
    assert_eq!(user_message("plain".to_string(), &[]), text_message("user", "plain".to_string()));
}

#[test]
fn a_retried_request_keeps_the_history_and_drops_every_image() {
    let visuals = vec!["data:image/jpeg;base64,AAAA".to_string(), "data:image/jpeg;base64,BBBB".to_string()];
    let history = vec![msg("user", "earlier question"), msg("assistant", "earlier answer")];
    let messages = turn_request("persona", None, &history, "what is this?".to_string(), &visuals);
    let retry = strip_visuals_for_retry(&messages, "what is this?");
    assert_eq!(retry.len(), messages.len());
    assert_eq!(retry[..3], messages[..3]);
    let last = retry.last().unwrap();
    assert_eq!(last.role, "user");
    let content = text_of(last).expect("text only");
    assert!(content.starts_with("what is this?"));
    assert!(content.contains(VISION_DROPPED_NOTE));
    assert!(retry.iter().all(|m| !has_image(m)));
}

#[test]
fn a_text_only_request_can_be_retried_too() {
    let messages = vec![
        text_message("system", "persona".to_string()),
        text_message("user", "read my screen".to_string()),
    ];
    let retry = strip_visuals_for_retry(&messages, "read my screen");
    assert_eq!(retry.len(), 2);
    assert_eq!(retry[0], messages[0]);
    let content = text_of(&retry[1]).unwrap();
    assert_eq!(content, format!("read my screen\n\n{}", VISION_DROPPED_NOTE));
    assert_eq!(strip_visuals_for_retry(&[], "x").len(), 1);
}
