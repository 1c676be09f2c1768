//! The messages of a chat request: the system prompt, the rolling-summary
//! note, the history sent, and the user's message with its pictures; and the
//! same request rebuilt without pictures for a model that cannot see.

use vstd::prelude::*;
use crate::assistant::conversation::{messages_view, ChatMessage};
use crate::autolearn::detect::string_views;
use crate::text::concat;

verus! {

/// One part of a message with pictures.
#[derive(Debug, Clone, PartialEq, Eq)]
pub enum ContentPart {
    /// Text.
    Text(String),
    /// A picture, as a `data:` URL.
    ImageUrl(String),
}

/// A part, as a value of the specification.
pub ghost enum PartView {
    Text(Seq<char>),
    Image(Seq<char>),
}

impl View for ContentPart {
    type V = PartView;

    open spec fn view(&self) -> PartView {
        match self {
            ContentPart::Text(t) => PartView::Text(t@),
            ContentPart::ImageUrl(u) => PartView::Image(u@),
        }
    }
}

/// The content of a message: text alone, or parts.
#[derive(Debug, Clone, PartialEq, Eq)]
pub enum MessageContent {
    Text(String),
    Parts(Vec<ContentPart>),
}

/// The views of some parts.
pub open spec fn parts_view(p: Seq<ContentPart>) -> Seq<PartView> {
    p.map_values(|x: ContentPart| x@)
}

/// Content, as a value of the specification.
pub ghost enum ContentView {
    Text(Seq<char>),
    Parts(Seq<PartView>),
}

impl View for MessageContent {
    type V = ContentView;

    open spec fn view(&self) -> ContentView {
        match self {
            MessageContent::Text(t) => ContentView::Text(t@),
            MessageContent::Parts(p) => ContentView::Parts(parts_view(p@)),
        }
    }
}

/// One message of a chat request.
#[derive(Debug, Clone, PartialEq, Eq)]
pub struct RequestMessage {
    /// "system", "user", "assistant" or "tool".
    pub role: String,
    pub content: MessageContent,
}

impl View for RequestMessage {
    type V = (Seq<char>, ContentView);

    open spec fn view(&self) -> (Seq<char>, ContentView) {
        (self.role@, self.content@)
    }
}

/// The views of some request messages.
pub open spec fn request_view(v: Seq<RequestMessage>) -> Seq<(Seq<char>, ContentView)> {
    v.map_values(|m: RequestMessage| m@)
}

/// A text message with `role`.
pub open spec fn text_entry(role: Seq<char>, text: Seq<char>) -> (Seq<char>, ContentView) {
    (role, ContentView::Text(text))
}

/// The history messages as request messages, each as text.
pub open spec fn history_entries(h: Seq<(Seq<char>, Seq<char>)>) -> Seq<(Seq<char>, ContentView)> {
    h.map_values(|m: (Seq<char>, Seq<char>)| text_entry(m.0, m.1))
}

/// The user's message: its text alone without pictures; else the text
/// followed by one part per picture, in order.
pub open spec fn user_entry(text: Seq<char>, visuals: Seq<Seq<char>>) -> (Seq<char>, ContentView) {
    if visuals.len() == 0 {
        text_entry("user"@, text)
    } else {
        (
            "user"@,
            ContentView::Parts(
                seq![PartView::Text(text)] + visuals.map_values(|u: Seq<char>| PartView::Image(u)),
            ),
        )
    }
}

/// The messages of a turn's request: the system prompt, the summary note
/// when there is one, the history sent, and the user's message.
pub open spec fn turn_request_spec(
    system: Seq<char>,
    summary_note: Option<Seq<char>>,
    history: Seq<(Seq<char>, Seq<char>)>,
    user_text: Seq<char>,
    visuals: Seq<Seq<char>>,
) -> Seq<(Seq<char>, ContentView)> {
    let head = seq![text_entry("system"@, system)];
    let note = match summary_note {
        Some(n) => seq![text_entry("system"@, n)],
        None => Seq::empty(),
    };
    head + note + history_entries(history) + seq![user_entry(user_text, visuals)]
}

/// A text message with `role`.
pub fn text_message(role: &str, text: String) -> (r: RequestMessage)
    ensures
        r@ == text_entry(role@, text@),
{
    RequestMessage { role: role.to_string(), content: MessageContent::Text(text) }
}

/// The user's message of a turn, with its pictures (the screen capture
/// first, then attached images, as `ordered_visual_inputs` gives them).
pub fn user_message(text: String, visuals: &[String]) -> (r: RequestMessage)
    ensures
        r@ == user_entry(text@, string_views(visuals@)),
{
    if visuals.len() == 0 {
        return text_message("user", text);
    }
    let ghost t = text@;
    let ghost vs = string_views(visuals@);
    let mut parts: Vec<ContentPart> = Vec::new();
    parts.push(ContentPart::Text(text));
    let mut i: usize = 0;
    while i < visuals.len()
        invariant
            i <= visuals@.len(),
            vs == string_views(visuals@),
            parts_view(parts@) == seq![PartView::Text(t)] + vs.take(i as int).map_values(
                |u: Seq<char>| PartView::Image(u),
            ),
        decreases visuals.len() - i,
    {
        let ghost before = parts_view(parts@);
        parts.push(ContentPart::ImageUrl(visuals[i].clone()));
        proof {
            assert(parts_view(parts@) =~= before.push(PartView::Image(vs[i as int])));
            assert(vs.take(i + 1).map_values(|u: Seq<char>| PartView::Image(u)) =~= vs.take(
                i as int,
            ).map_values(|u: Seq<char>| PartView::Image(u)).push(PartView::Image(vs[i as int])));
        }
        i += 1;
    }
    proof {
        assert(vs.take(visuals@.len() as int) =~= vs);
    }
    RequestMessage { role: "user".to_string(), content: MessageContent::Parts(parts) }
}

/// The messages of a turn's request, in order: the system prompt, the
/// rolling-summary note when there is one, the history sent (each message as
/// text), and the user's message with its pictures.
pub fn turn_request(
    system: &str,
    summary_note: Option<String>,
    history: &[ChatMessage],
    user_text: String,
    visuals: &[String],
) -> (r: Vec<RequestMessage>)
    ensures
        request_view(r@) == turn_request_spec(
            system@,
            match summary_note {
                Some(n) => Some(n@),
                None => None,
            },
            messages_view(history@),
            user_text@,
            string_views(visuals@),
        ),
{
    let ghost h = messages_view(history@);
    let mut out: Vec<RequestMessage> = Vec::new();
    out.push(text_message("system", system.to_string()));
    let ghost note: Seq<(Seq<char>, ContentView)> = match &summary_note {
        Some(n) => seq![text_entry("system"@, n@)],
        None => Seq::empty(),
    };
    match summary_note {
        Some(n) => {
            out.push(text_message("system", n));
        },
        None => {},
    }
    let ghost head = request_view(out@);
    proof {
        assert(head =~= seq![text_entry("system"@, system@)] + note);
    }
    let mut i: usize = 0;
    while i < history.len()
        invariant
            i <= history@.len(),
            h == messages_view(history@),
            request_view(out@) == head + history_entries(h.take(i as int)),
        decreases history.len() - i,
    {
        let ghost before = request_view(out@);
        out.push(text_message(history[i].role.as_str(), history[i].content.clone()));
        proof {
            assert(request_view(out@) =~= before.push(text_entry(h[i as int].0, h[i as int].1)));
            assert(history_entries(h.take(i + 1)) =~= history_entries(h.take(i as int)).push(
                text_entry(h[i as int].0, h[i as int].1),
            ));
        }
        i += 1;
    }
    proof {
        assert(h.take(history@.len() as int) =~= h);
    }
    let ghost before = request_view(out@);
    let user = user_message(user_text, visuals);
    out.push(user);
    proof {
        assert(request_view(out@) =~= before.push(user@));
    }
    out
}

/// What a retried request tells a model that cannot see about the picture
/// that was removed.
pub const VISION_DROPPED_NOTE: &'static str = "[System note: an image \u{2014} a capture of the user's screen, or a picture they attached \u{2014} was part of this request, but the model answering it cannot read images, so the image was removed and you cannot see it. Do not guess at or describe what it showed. Open your reply by telling the user in one short sentence that the current model can't see images and that they can choose a vision-capable model in Settings \u{2192} Assistant. Then answer whatever part of their message you can without the image.]";

/// The request retried without pictures: every message but the last kept as
/// it was, and the last replaced by the user's text, a blank line and
/// `VISION_DROPPED_NOTE`.
pub open spec fn retry_spec(m: Seq<(Seq<char>, ContentView)>, user_text: Seq<char>) -> Seq<
    (Seq<char>, ContentView),
> {
    let head = if m.len() > 0 {
        m.drop_last()
    } else {
        m
    };
    head.push(text_entry("user"@, user_text + "\n\n"@ + VISION_DROPPED_NOTE@))
}

/// Whether a message carries a picture.
pub open spec fn has_image(m: (Seq<char>, ContentView)) -> bool {
    match m.1 {
        ContentView::Text(_) => false,
        ContentView::Parts(p) => exists|i: int| 0 <= i < p.len() && p[i] is Image,
    }
}

/// A copy of some parts.
fn copy_parts(p: &Vec<ContentPart>) -> (r: Vec<ContentPart>)
    ensures
        parts_view(r@) == parts_view(p@),
{
    let mut out: Vec<ContentPart> = Vec::new();
    let mut i: usize = 0;
    while i < p.len()
        invariant
            i <= p@.len(),
            parts_view(out@) == parts_view(p@).take(i as int),
        decreases p.len() - i,
    {
        let ghost before = parts_view(out@);
        let part = match &p[i] {
            ContentPart::Text(t) => ContentPart::Text(t.clone()),
            ContentPart::ImageUrl(u) => ContentPart::ImageUrl(u.clone()),
        };
        out.push(part);
        proof {
            assert(parts_view(out@) =~= before.push(p@[i as int]@));
            assert(parts_view(p@).take(i + 1) =~= parts_view(p@).take(i as int).push(p@[i as int]@));
        }
        i += 1;
    }
    proof {
        assert(parts_view(p@).take(p@.len() as int) =~= parts_view(p@));
    }
    out
}

/// A copy of a request message.
fn copy_message(m: &RequestMessage) -> (r: RequestMessage)
    ensures
        r@ == m@,
{
    let content = match &m.content {
        MessageContent::Text(t) => MessageContent::Text(t.clone()),
        MessageContent::Parts(p) => MessageContent::Parts(copy_parts(p)),
    };
    RequestMessage { role: m.role.clone(), content }
}

/// Rebuild a request with its pictures removed, to retry a turn that a
/// model which cannot see refused: the messages before the last are kept as
/// they were, so a cached prefix still matches, and the last becomes the
/// user's text with a note that the picture was removed.
pub fn strip_visuals_for_retry(messages: &[RequestMessage], user_content: &str) -> (r: Vec<
    RequestMessage,
>)
    ensures
        request_view(r@) == retry_spec(request_view(messages@), user_content@),
{
    let ghost m = request_view(messages@);
    let keep = if messages.len() > 0 {
        messages.len() - 1
    } else {
        0
    };
    let mut out: Vec<RequestMessage> = Vec::new();
    let mut i: usize = 0;
    while i < keep
        invariant
            i <= keep,
            keep == if messages@.len() > 0 {
                messages@.len() - 1
            } else {
                0
            },
            m == request_view(messages@),
            request_view(out@) == m.take(i as int),
        decreases keep - i,
    {
        let ghost before = request_view(out@);
        out.push(copy_message(&messages[i]));
        proof {
            assert(request_view(out@) =~= before.push(m[i as int]));
            assert(m.take(i + 1) =~= m.take(i as int).push(m[i as int]));
        }
        i += 1;
    }
    let ghost before = request_view(out@);
    let text = concat(concat(user_content, "\n\n").as_str(), VISION_DROPPED_NOTE);
    out.push(text_message("user", text));
    proof {
        let head = if m.len() > 0 {
            m.drop_last()
        } else {
            m
        };
        assert(before =~= head);
        assert(request_view(out@) =~= head.push(
            text_entry("user"@, user_content@ + "\n\n"@ + VISION_DROPPED_NOTE@),
        ));
    }
    out
}

/// A retried request carries no picture when the messages before the
/// refused one carried none: the only message that could hold one is the
/// one replaced.
pub proof fn lemma_retry_drops_every_image(
    m: Seq<(Seq<char>, ContentView)>,
    user_text: Seq<char>,
)
    requires
        forall|i: int| 0 <= i < m.len() - 1 ==> !has_image(#[trigger] m[i]),
    ensures
        forall|i: int|
            0 <= i < retry_spec(m, user_text).len() ==> !has_image(
                #[trigger] retry_spec(m, user_text)[i],
            ),
        retry_spec(m, user_text).len() == if m.len() > 0 {
            m.len()
        } else {
            1
        },
{
    let r = retry_spec(m, user_text);
    assert forall|i: int| 0 <= i < r.len() implies !has_image(#[trigger] r[i]) by {
        if i < r.len() - 1 {
            assert(r[i] == m[i]);
        }
    }
}

} // verus!
