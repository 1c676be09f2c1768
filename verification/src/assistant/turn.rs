//! The pieces of one assistant turn: how many tool rounds it may take, what
//! the system prompt says about tools, how a provider's refusal is
//! recognised and explained, the Cat character's reply, and the turn's
//! timings.

use vstd::prelude::*;
use crate::text::{
    ascii_lower, concat, has_substring, lowercase, same_text, str_contains, string_from_chars,
    to_ascii_lowercase, to_lowercase, trim, trim_ws,
};
use crate::settings::{AppSettings, AssistantScreenAccessMode};
use crate::flow::{llm_view, resolve_flow_llm, resolve_spec, FlowLlm};

verus! {

/// One tool call the model asked for.
#[derive(Clone, Debug)]
pub struct ToolCall {
    pub id: String,
    pub name: String,
    pub arguments: String,
    pub thought_signature: Option<String>,
}

/// What one streamed model round produced.
#[derive(Clone, Debug)]
pub struct ToolStreamOutcome {
    pub text: String,
    pub tool_calls: Vec<ToolCall>,
}

/// The tool loop allows at most this many model rounds.
pub const MAX_ASSISTANT_TOOL_ROUNDS: usize = 3;

/// What to do after a model round.
#[derive(Debug, Clone, Copy, PartialEq, Eq, Structural)]
pub enum ToolRoundPolicy {
    /// The round asked for no tool: its text is the answer.
    FinalResponse,
    /// Run the tools, then ask the model again.
    RunToolsThenFollowUp,
    /// Run the tools, and make no further request: the rounds are used up.
    RunToolsThenStop,
}

/// What to do after round `round_index` (counted from zero).
pub fn tool_round_policy(round: &ToolStreamOutcome, round_index: usize) -> (r: ToolRoundPolicy)
    ensures
        r == if round.tool_calls@.len() == 0 {
            ToolRoundPolicy::FinalResponse
        } else if round_index + 1 < MAX_ASSISTANT_TOOL_ROUNDS {
            ToolRoundPolicy::RunToolsThenFollowUp
        } else {
            ToolRoundPolicy::RunToolsThenStop
        },
{
    if round.tool_calls.len() == 0 {
        ToolRoundPolicy::FinalResponse
    } else if round_index < MAX_ASSISTANT_TOOL_ROUNDS - 1 {
        ToolRoundPolicy::RunToolsThenFollowUp
    } else {
        ToolRoundPolicy::RunToolsThenStop
    }
}

/// A tool the assistant's model may call.
#[derive(Debug, Clone, Copy, PartialEq, Eq, Structural)]
pub enum AssistantTool {
    WebSearch,
    GetCurrentDatetime,
    SetReminder,
    ListReminders,
    CancelReminder,
    CaptureScreen,
}

impl AssistantTool {
    /// The name the model calls the tool by.
    pub fn name(self) -> (r: &'static str)
        ensures
            r@ == tool_name(self),
    {
        match self {
            AssistantTool::WebSearch => "web_search",
            AssistantTool::GetCurrentDatetime => "get_current_datetime",
            AssistantTool::SetReminder => "set_reminder",
            AssistantTool::ListReminders => "list_reminders",
            AssistantTool::CancelReminder => "cancel_reminder",
            AssistantTool::CaptureScreen => "capture_screen",
        }
    }
}

/// The name of a tool.
pub open spec fn tool_name(t: AssistantTool) -> Seq<char> {
    match t {
        AssistantTool::WebSearch => "web_search"@,
        AssistantTool::GetCurrentDatetime => "get_current_datetime"@,
        AssistantTool::SetReminder => "set_reminder"@,
        AssistantTool::ListReminders => "list_reminders"@,
        AssistantTool::CancelReminder => "cancel_reminder"@,
        AssistantTool::CaptureScreen => "capture_screen"@,
    }
}

/// The JSON type of a tool parameter.
#[derive(Debug, Clone, Copy, PartialEq, Eq, Structural)]
pub enum ParameterKind {
    /// A JSON string.
    Text,
    /// A JSON number.
    Number,
    /// A JSON boolean.
    Flag,
}

/// One parameter of a tool: its name, its JSON type, and whether the model
/// must give it.
#[derive(Debug, Clone, Copy)]
pub struct ToolParameter {
    pub name: &'static str,
    pub kind: ParameterKind,
    pub required: bool,
}

/// A parameter, as a value of the specification.
pub open spec fn parameter_view(p: ToolParameter) -> (Seq<char>, ParameterKind, bool) {
    (p.name@, p.kind, p.required)
}

/// The parameters of each tool, in the order they are listed. Web search
/// needs a query and may take a freshness and a news flag; a reminder needs
/// its text and may take a delay in minutes, an absolute time and a note;
/// cancelling needs the reminder's id; the clock, the reminder list and
/// screen capture take nothing.
pub open spec fn tool_parameters_spec(t: AssistantTool) -> Seq<(Seq<char>, ParameterKind, bool)> {
    match t {
        AssistantTool::WebSearch => seq![
            ("query"@, ParameterKind::Text, true),
            ("freshness"@, ParameterKind::Text, false),
            ("news"@, ParameterKind::Flag, false),
        ],
        AssistantTool::SetReminder => seq![
            ("text"@, ParameterKind::Text, true),
            ("in_minutes"@, ParameterKind::Number, false),
            ("at"@, ParameterKind::Text, false),
            ("note"@, ParameterKind::Text, false),
        ],
        AssistantTool::CancelReminder => seq![("id"@, ParameterKind::Text, true)],
        _ => Seq::empty(),
    }
}

/// The freshness values a web search accepts, from no limit to the past
/// year.
pub const FRESHNESS_CHOICES: [&'static str; 5] = ["none", "day", "week", "month", "year"];

impl AssistantTool {
    /// The parameters of the tool (see `tool_parameters_spec`).
    pub fn parameters(self) -> (r: Vec<ToolParameter>)
        ensures
            r@.map_values(|p: ToolParameter| parameter_view(p)) == tool_parameters_spec(self),
    {
        let mut r: Vec<ToolParameter> = Vec::new();
        match self {
            AssistantTool::WebSearch => {
                r.push(ToolParameter { name: "query", kind: ParameterKind::Text, required: true });
                r.push(
                    ToolParameter { name: "freshness", kind: ParameterKind::Text, required: false },
                );
                r.push(ToolParameter { name: "news", kind: ParameterKind::Flag, required: false });
            },
            AssistantTool::SetReminder => {
                r.push(ToolParameter { name: "text", kind: ParameterKind::Text, required: true });
                r.push(
                    ToolParameter {
                        name: "in_minutes",
                        kind: ParameterKind::Number,
                        required: false,
                    },
                );
                r.push(ToolParameter { name: "at", kind: ParameterKind::Text, required: false });
                r.push(ToolParameter { name: "note", kind: ParameterKind::Text, required: false });
            },
            AssistantTool::CancelReminder => {
                r.push(ToolParameter { name: "id", kind: ParameterKind::Text, required: true });
            },
            _ => {},
        }
        proof {
            assert(r@.map_values(|p: ToolParameter| parameter_view(p)) =~= tool_parameters_spec(
                self,
            ));
        }
        r
    }

    /// The names of the parameters the model must give, in order.
    pub fn required_parameters(self) -> (r: Vec<&'static str>)
        ensures
            r@.map_values(|n: &'static str| n@) == tool_parameters_spec(self).filter(
                |p: (Seq<char>, ParameterKind, bool)| p.2,
            ).map_values(|p: (Seq<char>, ParameterKind, bool)| p.0),
    {
        let params = self.parameters();
        let ghost spec = tool_parameters_spec(self);
        let mut r: Vec<&'static str> = Vec::new();
        let mut i: usize = 0;
        while i < params.len()
            invariant
                i <= params@.len(),
                params@.map_values(|p: ToolParameter| parameter_view(p)) == spec,
                r@.map_values(|n: &'static str| n@) == spec.take(i as int).filter(
                    |p: (Seq<char>, ParameterKind, bool)| p.2,
                ).map_values(|p: (Seq<char>, ParameterKind, bool)| p.0),
            decreases params.len() - i,
        {
            let p = params[i];
            let ghost before = r@;
            proof {
                assert(spec[i as int] == parameter_view(p));
                assert(spec.take(i + 1).drop_last() =~= spec.take(i as int));
                reveal_with_fuel(Seq::filter, 1);
            }
            if p.required {
                r.push(p.name);
            }
            proof {
                let f = |q: (Seq<char>, ParameterKind, bool)| q.2;
                let g = |q: (Seq<char>, ParameterKind, bool)| q.0;
                let h = |n: &'static str| n@;
                let old_kept = spec.take(i as int).filter(f);
                assert(spec.take(i + 1).filter(f) == if p.required {
                    old_kept.push(spec[i as int])
                } else {
                    old_kept
                });
                if p.required {
                    assert(r@ == before.push(p.name));
                    assert(r@.map_values(h) =~= before.map_values(h).push(p.name@));
                    assert(old_kept.push(spec[i as int]).map_values(g) =~= old_kept.map_values(
                        g,
                    ).push(spec[i as int].0));
                }
            }
            i += 1;
        }
        proof {
            assert(spec.take(params@.len() as int) =~= spec);
        }
        r
    }
}

/// The reply a `web_search` call gets when the model sent no query.
pub const NO_WEB_SEARCH_QUERY: &'static str = "No query was provided to web_search.";

/// The arguments of a `web_search` call, from the fields the model sent
/// (each absent where the model left it out or gave it another JSON type):
/// the query trimmed, empty when absent; the freshness as given; and whether
/// news was asked for, no when absent.
pub fn web_search_args(query: Option<&str>, freshness: Option<&str>, news: Option<bool>) -> (r: (
    String,
    Option<String>,
    bool,
))
    ensures
        r.0@ == (match query {
            Some(q) => trim_ws(q@),
            None => Seq::empty(),
        }),
        match freshness {
            Some(f) => r.1 matches Some(s) && s@ == f@,
            None => r.1 is None,
        },
        r.2 == (news == Some(true)),
{
    let q = match query {
        Some(q) => trim(q),
        None => String::new(),
    };
    let f = match freshness {
        Some(f) => Some(f.to_owned()),
        None => None,
    };
    let n = match news {
        Some(b) => b,
        None => false,
    };
    (q, f, n)
}

/// What a `web_search` call answers instead of searching: `NO_WEB_SEARCH_QUERY`
/// when its (trimmed) query is empty, and nothing otherwise.
pub fn web_search_refusal(query: &str) -> (r: Option<&'static str>)
    ensures
        r is Some <==> query@.len() == 0,
        r matches Some(m) ==> m@ == NO_WEB_SEARCH_QUERY@,
{
    if query.unicode_len() == 0 {
        Some(NO_WEB_SEARCH_QUERY)
    } else {
        None
    }
}

/// The tools a turn offers, in request order: web search first when it is
/// on; the clock and the three reminder tools always; screen capture last
/// when the model decides about the screen.
pub open spec fn tools_offered(web: bool, screen: bool) -> Seq<AssistantTool> {
    (if web {
        seq![AssistantTool::WebSearch]
    } else {
        Seq::empty()
    }) + seq![
        AssistantTool::GetCurrentDatetime,
        AssistantTool::SetReminder,
        AssistantTool::ListReminders,
        AssistantTool::CancelReminder,
    ] + (if screen {
        seq![AssistantTool::CaptureScreen]
    } else {
        Seq::empty()
    })
}

/// The tools of a turn (see `tools_offered`). The list is never empty, and
/// its order is fixed so the request prefix stays byte-stable.
pub fn assistant_tools(web: bool, screen: bool) -> (r: Vec<AssistantTool>)
    ensures
        r@ == tools_offered(web, screen),
{
    let mut tools: Vec<AssistantTool> = Vec::new();
    if web {
        tools.push(AssistantTool::WebSearch);
    }
    tools.push(AssistantTool::GetCurrentDatetime);
    tools.push(AssistantTool::SetReminder);
    tools.push(AssistantTool::ListReminders);
    tools.push(AssistantTool::CancelReminder);
    if screen {
        tools.push(AssistantTool::CaptureScreen);
    }
    proof {
        assert(tools@ =~= tools_offered(web, screen));
    }
    tools
}

/// Every turn offers the clock and reminder tools, so the list is never
/// empty; web search and screen capture are offered exactly when on.
pub proof fn lemma_clock_and_reminders_are_always_offered(web: bool, screen: bool)
    ensures
        tools_offered(web, screen).len() >= 4,
        tools_offered(web, screen).contains(AssistantTool::GetCurrentDatetime),
        tools_offered(web, screen).contains(AssistantTool::SetReminder),
        tools_offered(web, screen).contains(AssistantTool::ListReminders),
        tools_offered(web, screen).contains(AssistantTool::CancelReminder),
        tools_offered(web, screen).contains(AssistantTool::WebSearch) == web,
        tools_offered(web, screen).contains(AssistantTool::CaptureScreen) == screen,
{
    let t = tools_offered(web, screen);
    let o: int = if web {
        1
    } else {
        0
    };
    assert(t[o] == AssistantTool::GetCurrentDatetime);
    assert(t[o + 1] == AssistantTool::SetReminder);
    assert(t[o + 2] == AssistantTool::ListReminders);
    assert(t[o + 3] == AssistantTool::CancelReminder);
    if web {
        assert(t[0] == AssistantTool::WebSearch);
    } else {
        assert(!t.contains(AssistantTool::WebSearch)) by {
            assert forall|i: int| 0 <= i < t.len() implies t[i] != AssistantTool::WebSearch by {}
        }
    }
    if screen {
        assert(t[t.len() - 1] == AssistantTool::CaptureScreen);
    } else {
        assert(!t.contains(AssistantTool::CaptureScreen)) by {
            assert forall|i: int| 0 <= i < t.len() implies t[i] != AssistantTool::CaptureScreen by {}
        }
    }
}

/// The heading of the tools section.
pub const TOOLS_HEAD: &'static str = "## Tools\nYou can call tools before answering; use one only when it genuinely helps, then reply normally.\n";

/// The web search tool.
pub const TOOL_WEB_SEARCH: &'static str = "\u{2022} web_search(query, freshness, news): live web results (titles + short snippets). Call it BEFORE answering any question about current, recent, or changeable facts \u{2014} news, prices, sports scores, schedules, software versions, who currently holds a role or title, or recent events \u{2014} because your training data has a fixed cutoff and may be out of date. For timeless things (definitions, concepts, math, coding, writing, translation, general how-to), answer directly without searching. Never claim you cannot access the internet.\n";

/// The clock and reminder tools, offered on every turn.
pub const TOOL_CLOCK_AND_REMINDERS: &'static str = "\u{2022} get_current_datetime(): the user's current local date and time. Call it whenever you need the present moment \u{2014} to say what day or time it is, to turn a relative reference (today, yesterday, this week, how long until X) into a concrete date, or before setting a reminder for a named clock time.\n\u{2022} set_reminder(text, in_minutes, at, note): schedule a popup on the user's screen. Call it for any request to be reminded, nudged, told later, or timed. Use in_minutes for a duration and at (\"YYYY-MM-DD HH:MM\", local, future) for a named time \u{2014} check the clock first for the latter. Write text so it stands alone: it is the entire popup, so \"Reply to Sam's email about the quote\", never \"do that thing\". If the request is about something on screen, look first and put what you saw into text or note. After it is set, confirm in one short sentence including when it will arrive.\n\u{2022} list_reminders() and cancel_reminder(id): what is set, and removing one. Look the id up before cancelling, and never cancel something the user did not clearly name.\n";

/// The screen-capture tool.
pub const TOOL_CAPTURE_SCREEN: &'static str = "\u{2022} capture_screen(): take one screenshot of the user's current screen. The user allowed you to decide when seeing their screen helps. Call it ONLY when the message clearly refers to something on screen ('this page', 'this error', 'look at this', 'reply to this') or genuinely cannot be answered blind. Never capture for self-contained questions. At most once per message; the screenshot is shown to the user.\n";

/// Separates the tool list from the web-search directive.
pub const PARAGRAPH: &'static str = "\n";

/// The tools section of the system prompt: the heading; the web search tool
/// when web search is on; the clock and reminder tools always; the
/// screen-capture tool when the model decides about the screen; and, when
/// web search is on, the directive on presenting web findings.
pub open spec fn tools_section(web: bool, screen: bool, web_directive: Seq<char>) -> Seq<char> {
    TOOLS_HEAD@ + (if web {
        TOOL_WEB_SEARCH@
    } else {
        Seq::empty()
    }) + TOOL_CLOCK_AND_REMINDERS@ + (if screen {
        TOOL_CAPTURE_SCREEN@
    } else {
        Seq::empty()
    }) + (if web {
        PARAGRAPH@ + web_directive
    } else {
        Seq::empty()
    })
}

/// The "Tools" section of the system prompt, describing only the tools this
/// turn offers. `web_directive` is the shared directive on presenting web
/// findings, which depends on whether the answer is spoken. Fixed text per
/// combination of flags, so the request prefix stays cache-friendly.
pub fn tools_system_section(web: bool, screen: bool, web_directive: &str) -> (r: String)
    ensures
        r@ == tools_section(web, screen, web_directive@),
{
    let mut s = TOOLS_HEAD.to_owned();
    if web {
        s = concat(s.as_str(), TOOL_WEB_SEARCH);
    }
    s = concat(s.as_str(), TOOL_CLOCK_AND_REMINDERS);
    if screen {
        s = concat(s.as_str(), TOOL_CAPTURE_SCREEN);
    }
    if web {
        s = concat(s.as_str(), PARAGRAPH);
        s = concat(s.as_str(), web_directive);
    }
    proof {
        if web && screen {
            assert(s@ =~= tools_section(web, screen, web_directive@));
        } else if web {
            assert(s@ =~= tools_section(web, screen, web_directive@));
        } else if screen {
            assert(s@ =~= tools_section(web, screen, web_directive@));
        } else {
            assert(s@ =~= tools_section(web, screen, web_directive@));
        }
    }
    s
}

/// A provider error that means the model cannot accept images.
pub open spec fn vision_refusal(error: Seq<char>) -> bool {
    let e = lowercase(error);
    has_substring(e, "image input is not supported"@) || has_substring(e, "mmproj"@)
        || has_substring(e, "does not support image"@) || has_substring(e, "not support image"@)
        || has_substring(e, "support image input"@) || has_substring(e, "image_url"@)
        || has_substring(e, "multimodal"@) || (has_substring(e, "messages["@) && has_substring(
        e,
        ".content must be a string"@,
    )) || (has_substring(e, "vision"@) && (has_substring(e, "not"@) || has_substring(
        e,
        "unsupported"@,
    )))
}

/// Whether a provider error means the selected model cannot accept images.
/// Consulted only after an image was sent, so it matches broadly.
pub fn is_vision_unsupported_error(error: &str) -> (r: bool)
    ensures
        r == vision_refusal(error@),
{
    let lowered = to_lowercase(error);
    let e = lowered.as_str();
    str_contains(e, "image input is not supported") || str_contains(e, "mmproj") || str_contains(
        e,
        "does not support image",
    ) || str_contains(e, "not support image") || str_contains(e, "support image input")
        || str_contains(e, "image_url") || str_contains(e, "multimodal") || (str_contains(
        e,
        "messages[",
    ) && str_contains(e, ".content must be a string")) || (str_contains(e, "vision") && (
    str_contains(e, "not") || str_contains(e, "unsupported")))
}

/// A provider error that means the endpoint or model does no function
/// calling.
pub open spec fn tools_refusal(error: Seq<char>) -> bool {
    let e = lowercase(error);
    (has_substring(e, "tool"@) || has_substring(e, "function call"@)) && (has_substring(
        e,
        "not supported"@,
    ) || has_substring(e, "unsupported"@) || has_substring(e, "does not support"@)
        || has_substring(e, "not enabled"@) || has_substring(e, "unrecognized"@) || has_substring(
        e,
        "unknown field"@,
    ) || has_substring(e, "unexpected keyword"@))
}

/// Whether a provider error means the request's tools were refused, so the
/// turn can be retried without them. Consulted on every failed turn, so it
/// matches narrowly: a tool or function-call phrase together with a refusal
/// phrase.
pub fn is_tools_unsupported_error(error: &str) -> (r: bool)
    ensures
        r == tools_refusal(error@),
{
    let lowered = to_lowercase(error);
    let e = lowered.as_str();
    (str_contains(e, "tool") || str_contains(e, "function call")) && (str_contains(
        e,
        "not supported",
    ) || str_contains(e, "unsupported") || str_contains(e, "does not support") || str_contains(
        e,
        "not enabled",
    ) || str_contains(e, "unrecognized") || str_contains(e, "unknown field") || str_contains(
        e,
        "unexpected keyword",
    ))
}

/// The id of the built-in provider.
pub const BUILTIN_PROVIDER: &'static str = "builtin";

/// The start of the message for a built-in model whose image component is
/// missing.
pub const BUILTIN_VISION_HEAD: &'static str = "The built-in model '";

/// The end of that message.
pub const BUILTIN_VISION_TAIL: &'static str = "' supports vision, but its image component isn't installed yet. Re-download it from the model manager to enable screen vision, or ask again without a screenshot.";

/// The start of the message for a model that cannot see images.
pub const NO_VISION_HEAD: &'static str = "The selected model '";

/// The end of that message.
pub const NO_VISION_TAIL: &'static str = "' doesn't support vision \u{2014} it can't read screenshots. Pick a vision-capable model in Settings \u{2192} Assistant (e.g. gpt-4o-mini, gpt-4.1-mini, gemini-flash, sonnet, or a multimodal local model), or ask again without a screenshot.";

/// What to tell the user when a screenshot went to a model that cannot see
/// it. A built-in model that has a multimodal projector available
/// (`projector_available`) only lacks that component; any other model
/// cannot see at all.
pub fn vision_unsupported_message(provider_id: &str, model: &str, projector_available: bool) -> (r:
    String)
    ensures
        r@ == if provider_id@ == BUILTIN_PROVIDER@ && projector_available {
            BUILTIN_VISION_HEAD@ + model@ + BUILTIN_VISION_TAIL@
        } else {
            NO_VISION_HEAD@ + model@ + NO_VISION_TAIL@
        },
{
    if crate::text::same_text(provider_id, BUILTIN_PROVIDER) && projector_available {
        let head = concat(BUILTIN_VISION_HEAD, model);
        concat(head.as_str(), BUILTIN_VISION_TAIL)
    } else {
        let head = concat(NO_VISION_HEAD, model);
        concat(head.as_str(), NO_VISION_TAIL)
    }
}


/// The multiplier of the Cat's pseudo-random generator.
pub const LCG_MULTIPLIER: u64 = 6364136223846793005;

/// The increment of the Cat's pseudo-random generator.
pub const LCG_INCREMENT: u64 = 1442695040888963407;

/// The seed used when the clock cannot be read.
pub const FALLBACK_SEED: u64 = 0x9E37_79B9_7F4A_7C15;

/// The generator's state after `s`.
pub open spec fn lcg(s: u64) -> u64 {
    vstd::wrapping::u64_specs::wrapping_add(
        vstd::wrapping::u64_specs::wrapping_mul(s, LCG_MULTIPLIER),
        LCG_INCREMENT,
    )
}

/// The number a state yields: its top bits.
pub open spec fn drawn(s: u64) -> u64 {
    s >> 33u64
}

/// `n` exclamation marks.
pub open spec fn bangs(n: nat) -> Seq<char>
    decreases n,
{
    if n == 0 {
        Seq::empty()
    } else {
        bangs((n - 1) as nat).push('!')
    }
}

/// The first `k` meows drawn from state `s`, and the state after them. Each
/// meow draws its capital (even: "meow", odd: "Meow"), then how many
/// exclamation marks follow it (0 to 2).
pub open spec fn meow_words(s: u64, k: nat) -> (Seq<Seq<char>>, u64)
    decreases k,
{
    if k == 0 {
        (Seq::empty(), s)
    } else {
        let (prev, t) = meow_words(s, (k - 1) as nat);
        let t1 = lcg(t);
        let word = if drawn(t1) % 2 == 0 {
            "meow"@
        } else {
            "Meow"@
        };
        let t2 = lcg(t1);
        (prev.push(word + bangs((drawn(t2) % 3) as nat)), t2)
    }
}

/// Words joined by single spaces.
pub open spec fn joined(ws: Seq<Seq<char>>) -> Seq<char>
    decreases ws.len(),
{
    if ws.len() == 0 {
        Seq::empty()
    } else if ws.len() == 1 {
        ws[0]
    } else {
        joined(ws.drop_last()) + " "@ + ws.last()
    }
}

/// The Cat's reply from a seed: the first draw picks 1 to 4 meows.
pub open spec fn meow_spec(seed: u64) -> Seq<char> {
    let s1 = lcg(seed);
    let count = 1 + drawn(s1) % 4;
    joined(meow_words(s1, count as nat).0)
}

/// One meow: "meow" or "Meow", followed by at most two exclamation marks.
pub open spec fn is_meow(w: Seq<char>) -> bool {
    exists|n: nat| n <= 2 && (w == "meow"@ + #[trigger] bangs(n) || w == "Meow"@ + bangs(n))
}

/// `meow_words` draws `k` words, each a meow.
proof fn lemma_meow_words(s: u64, k: nat)
    ensures
        meow_words(s, k).0.len() == k,
        forall|i: int| 0 <= i < k ==> is_meow(#[trigger] meow_words(s, k).0[i]),
    decreases k,
{
    if k > 0 {
        lemma_meow_words(s, (k - 1) as nat);
        let (prev, t) = meow_words(s, (k - 1) as nat);
        let t2 = lcg(lcg(t));
        let n = (drawn(t2) % 3) as nat;
        let w = meow_words(s, k).0;
        assert forall|i: int| 0 <= i < k implies is_meow(#[trigger] w[i]) by {
            if i < k - 1 {
                assert(w[i] == prev[i]);
            } else {
                assert(n <= 2);
                let _ = bangs(n);
            }
        }
    }
}

/// The Cat always answers with one to four meows, separated by single
/// spaces.
pub proof fn lemma_meow_shape(seed: u64)
    ensures
        exists|ws: Seq<Seq<char>>|
            1 <= ws.len() <= 4 && (forall|i: int| 0 <= i < ws.len() ==> is_meow(#[trigger] ws[i]))
                && meow_spec(seed) == #[trigger] joined(ws),
{
    let s1 = lcg(seed);
    let count = (1 + drawn(s1) % 4) as nat;
    lemma_meow_words(s1, count);
    let ws = meow_words(s1, count).0;
    assert(meow_spec(seed) == joined(ws));
}

/// The seed of the Cat's generator: the clock's nanoseconds (their low 64
/// bits), or a fixed value when the clock cannot be read, made odd.
pub open spec fn seed_spec(nanos: Option<u128>) -> u64 {
    (match nanos {
        Some(n) => n as u64,
        None => FALLBACK_SEED,
    }) | 1u64
}

/// The seed for a clock reading.
pub fn seed_from_clock(nanos: Option<u128>) -> (r: u64)
    ensures
        r == seed_spec(nanos),
{
    let base: u64 = match nanos {
        Some(n) => n as u64,
        None => FALLBACK_SEED,
    };
    base | 1
}

/// Calls `SystemTime::now` and `duration_since(UNIX_EPOCH)`, giving the time
/// since the epoch in nanoseconds, or `None` when the clock reads earlier
/// than the epoch. Nothing is promised of the value: it is the time.
#[verifier::external_body]
fn clock_nanos() -> (r: Option<u128>) {
    match std::time::SystemTime::now().duration_since(std::time::UNIX_EPOCH) {
        Ok(d) => Some(d.as_nanos()),
        Err(_) => None,
    }
}

/// The Cat's reply for a seed (see `meow_spec`).
pub fn meow_from_seed(seed: u64) -> (r: String)
    ensures
        r@ == meow_spec(seed),
{
    let mut state = seed.wrapping_mul(LCG_MULTIPLIER).wrapping_add(LCG_INCREMENT);
    let ghost s1 = state;
    let count: u64 = 1 + (state >> 33) % 4;
    let mut out: Vec<char> = Vec::new();
    let mut k: u64 = 0;
    while k < count
        invariant
            k <= count,
            count == 1 + drawn(s1) % 4,
            s1 == lcg(seed),
            state == meow_words(s1, k as nat).1,
            out@ == joined(meow_words(s1, k as nat).0),
        decreases count - k,
    {
        let ghost prev_words = meow_words(s1, k as nat).0;
        if k > 0 {
            out.push(' ');
        }
        state = state.wrapping_mul(LCG_MULTIPLIER).wrapping_add(LCG_INCREMENT);
        if (state >> 33) % 2 == 0 {
            out.push('m');
        } else {
            out.push('M');
        }
        out.push('e');
        out.push('o');
        out.push('w');
        state = state.wrapping_mul(LCG_MULTIPLIER).wrapping_add(LCG_INCREMENT);
        let n = (state >> 33) % 3;
        let mut b: u64 = 0;
        let ghost base = out@;
        while b < n
            invariant
                b <= n,
                out@ == base + bangs(b as nat),
            decreases n - b,
        {
            out.push('!');
            b += 1;
        }
        proof {
            reveal_strlit("meow");
            reveal_strlit("Meow");
            reveal_strlit(" ");
            let w = meow_words(s1, (k + 1) as nat).0;
            assert(w.drop_last() =~= prev_words);
            if k > 0 {
                assert(out@ =~= joined(prev_words) + " "@ + w.last());
            } else {
                assert(out@ =~= w.last());
            }
        }
        k += 1;
    }
    string_from_chars(out.as_slice())
}

/// A short, random string of meows for the "Cat" character: one to four
/// meows, each sometimes capitalised and sometimes followed by one or two
/// exclamation marks. Seeded from the clock.
pub fn random_meow() -> (r: String)
    ensures
        exists|seed: u64| r@ == meow_spec(seed),
{
    let seed = seed_from_clock(clock_nanos());
    meow_from_seed(seed)
}

/// A reading of the monotonic clock.
#[verifier::external_type_specification]
#[verifier::external_body]
pub struct ExInstant(std::time::Instant);

/// Calls `Instant::now`. Nothing is promised of the reading.
#[verifier::external_body]
fn instant_now() -> (r: std::time::Instant) {
    std::time::Instant::now()
}

/// Calls `Instant::elapsed`. Nothing is promised of the duration.
#[verifier::external_body]
fn instant_elapsed(i: &std::time::Instant) -> (r: core::time::Duration) {
    i.elapsed()
}

/// The most whole milliseconds a `Duration` holds: `Duration::MAX` is
/// `u64::MAX` seconds and 999,999,999 nanoseconds.
pub const MAX_DURATION_MILLIS: u128 = 18_446_744_073_709_551_615_999;

/// Calls `Duration::as_millis`: the whole milliseconds of the duration, so
/// at most `MAX_DURATION_MILLIS`. Nothing more is promised of the count.
#[verifier::external_body]
fn duration_millis(d: &core::time::Duration) -> (r: u128)
    ensures
        r <= MAX_DURATION_MILLIS,
{
    d.as_millis()
}

/// Stage timings of one turn: when it started, and how many milliseconds
/// passed before the first streamed token (0 until one arrives).
pub struct TurnTimer {
    started: std::time::Instant,
    first_token_ms: u64,
}

impl TurnTimer {
    /// A timer started now, with no token yet.
    pub fn new() -> (r: Self)
        ensures
            r.first_token_spec() is None,
    {
        TurnTimer { started: instant_now(), first_token_ms: 0 }
    }

    /// The milliseconds to the first token, if one has arrived.
    pub closed spec fn first_token_spec(&self) -> Option<u64> {
        if self.first_token_ms == 0 {
            None
        } else {
            Some(self.first_token_ms)
        }
    }

    /// Record that a token arrived. Only the first arrival is kept, so a
    /// follow-up round cannot overwrite the wait the user actually had; a
    /// recorded time is at least one millisecond.
    pub fn mark_first_token(&mut self)
        ensures
            old(self).first_token_spec() is Some ==> final(self).first_token_spec()
                == old(self).first_token_spec(),
            final(self).first_token_spec() is Some,
    {
        let elapsed = duration_millis(&instant_elapsed(&self.started));
        let capped: u64 = if elapsed > u64::MAX as u128 {
            u64::MAX
        } else {
            elapsed as u64
        };
        if self.first_token_ms == 0 {
            self.first_token_ms = if capped < 1 {
                1
            } else {
                capped
            };
        }
    }

    /// Whole milliseconds since the turn started, as the monotonic clock
    /// reads now: some whole number of milliseconds a `Duration` can hold.
    pub fn elapsed_ms(&self) -> (r: u128)
        ensures
            r <= MAX_DURATION_MILLIS,
    {
        duration_millis(&instant_elapsed(&self.started))
    }

    /// The milliseconds to the first token, if one has arrived.
    pub fn first_token_ms(&self) -> (r: Option<u64>)
        ensures
            r == self.first_token_spec(),
    {
        if self.first_token_ms == 0 {
            None
        } else {
            Some(self.first_token_ms)
        }
    }
}


/// How a turn reaches the web.
#[derive(Debug, Clone, Copy, PartialEq, Eq, Structural)]
pub struct WebRouting {
    /// Through OpenRouter's own search, by asking for the model's ":online"
    /// variant.
    pub via_online: bool,
    /// Through the `web_search` tool, called when the model decides to.
    pub via_tools: bool,
}

/// Whether a provider is OpenRouter, by its id or its address.
pub open spec fn is_openrouter(provider_id: Seq<char>, base_url: Seq<char>) -> bool {
    provider_id == "openrouter"@ || has_substring(ascii_lower(base_url), "openrouter"@)
}

/// How a turn reaches the web: not at all when web search is off; through
/// OpenRouter's own search when the provider is OpenRouter, the user prefers
/// it and no picture rides along (that search cannot take one); through the
/// tool otherwise.
pub fn web_routing(
    provider_id: &str,
    base_url: &str,
    web_enabled: bool,
    has_visual: bool,
    prefer_provider_search: bool,
) -> (r: WebRouting)
    ensures
        r.via_online == (web_enabled && is_openrouter(provider_id@, base_url@) && !has_visual
            && prefer_provider_search),
        r.via_tools == (web_enabled && !r.via_online),
{
    let url = to_ascii_lowercase(base_url);
    let openrouter = same_text(provider_id, "openrouter") || str_contains(url.as_str(), "openrouter");
    let via_online = web_enabled && openrouter && !has_visual && prefer_provider_search;
    WebRouting { via_online, via_tools: web_enabled && !via_online }
}

/// The model name a request asks for: with ":online" when the web is reached
/// through OpenRouter's own search, else unchanged.
pub fn request_model(model: &str, via_online: bool) -> (r: String)
    ensures
        r@ == if via_online {
            model@ + ":online"@
        } else {
            model@
        },
{
    if via_online {
        concat(model, ":online")
    } else {
        model.to_string()
    }
}

/// Whether the model is offered the screen tool this turn: only when it
/// decides about the screen and no screenshot already rides along.
pub fn agent_screen_turn(mode: AssistantScreenAccessMode, screenshot_attached: bool) -> (r: bool)
    ensures
        r == (mode == AssistantScreenAccessMode::AgentDecides && !screenshot_attached),
{
    mode == AssistantScreenAccessMode::AgentDecides && !screenshot_attached
}

/// Whether to start grabbing a frame before the model asks for one: on a
/// turn with the screen tool, but not on a spoken call (every utterance
/// there is a turn) and not for the Cat.
pub fn prefetch_agent_frame(agent_screen: bool, voice_turn: bool, character_is_cat: bool) -> (r:
    bool)
    ensures
        r == (agent_screen && !voice_turn && !character_is_cat),
{
    agent_screen && !voice_turn && !character_is_cat
}


/// The message when no assistant provider is selected.
pub const NO_PROVIDER_MESSAGE: &'static str =
    "No assistant provider configured. Pick one in Settings \u{2192} Assistant.";

/// Why a turn cannot reach a model.
#[derive(Debug, Clone)]
pub enum TurnSetupError {
    /// No assistant provider is selected.
    NoProvider,
    /// The selected provider, named `label`, has no model.
    NoModel { label: String },
}

impl TurnSetupError {
    /// The stable code the panel maps to its own short message.
    pub fn code(&self) -> (r: &'static str)
        ensures
            r@ == match self {
                TurnSetupError::NoProvider => "no_provider"@,
                TurnSetupError::NoModel { .. } => "no_model"@,
            },
    {
        match self {
            TurnSetupError::NoProvider => "no_provider",
            TurnSetupError::NoModel { .. } => "no_model",
        }
    }

    /// The full message.
    pub fn message(&self) -> (r: String)
        ensures
            r@ == match self {
                TurnSetupError::NoProvider => NO_PROVIDER_MESSAGE@,
                TurnSetupError::NoModel { label } => "No model configured for provider '"@ + label@
                    + "'. Set one in Settings \u{2192} Assistant."@,
            },
    {
        match self {
            TurnSetupError::NoProvider => NO_PROVIDER_MESSAGE.to_string(),
            TurnSetupError::NoModel { label } => concat(
                concat("No model configured for provider '", label.as_str()).as_str(),
                "'. Set one in Settings \u{2192} Assistant.",
            ),
        }
    }
}

/// The provider, model and key a turn uses, or why there are none: no
/// provider selected, or no model set for it.
pub fn resolve_turn_llm(settings: &AppSettings) -> (r: Result<FlowLlm, TurnSetupError>)
    ensures
        match r {
            Ok(l) => resolve_spec(*settings) == llm_view(Some(l)),
            Err(TurnSetupError::NoProvider) => settings.assistant_provider is None,
            Err(TurnSetupError::NoModel { label }) => resolve_spec(*settings) is None && (
            match settings.assistant_provider {
                Some(p) => label@ == p.label@,
                None => false,
            }),
        },
{
    match resolve_flow_llm(settings) {
        Some(l) => Ok(l),
        None => match &settings.assistant_provider {
            None => Err(TurnSetupError::NoProvider),
            Some(p) => Err(TurnSetupError::NoModel { label: p.label.clone() }),
        },
    }
}


/// How a failed turn is reported to the panel.
#[derive(Debug, Clone, Copy, PartialEq, Eq, Structural)]
pub enum TurnFailure {
    /// A picture made the request body too large to parse.
    ScreenshotTooLarge,
    /// The model cannot take pictures.
    VisionUnsupported,
    /// Anything else the provider said.
    Provider,
}

impl TurnFailure {
    /// The stable code the panel maps to its own short message.
    pub fn code(self) -> (r: &'static str)
        ensures
            r@ == match self {
                TurnFailure::ScreenshotTooLarge => "screenshot_too_large"@,
                TurnFailure::VisionUnsupported => "vision_unsupported"@,
                TurnFailure::Provider => "provider"@,
            },
    {
        match self {
            TurnFailure::ScreenshotTooLarge => "screenshot_too_large",
            TurnFailure::VisionUnsupported => "vision_unsupported",
            TurnFailure::Provider => "provider",
        }
    }
}

/// How to report the final error of a turn that carried a picture
/// (`has_visual`) or not.
pub fn classify_turn_failure(error: &str, has_visual: bool) -> (r: TurnFailure)
    ensures
        r == if has_substring(error@, "Unterminated string"@) && has_visual {
            TurnFailure::ScreenshotTooLarge
        } else if has_visual && vision_refusal(error@) {
            TurnFailure::VisionUnsupported
        } else {
            TurnFailure::Provider
        },
{
    if str_contains(error, "Unterminated string") && has_visual {
        TurnFailure::ScreenshotTooLarge
    } else if has_visual && is_vision_unsupported_error(error) {
        TurnFailure::VisionUnsupported
    } else {
        TurnFailure::Provider
    }
}

/// Whether a failed turn is asked once more with every picture removed: a
/// picture went out, the model refused pictures, the picture-free request
/// was prepared, and the user has not stopped the turn.
pub fn retry_without_images(
    error: &str,
    image_dispatched: bool,
    fallback_ready: bool,
    cancelled: bool,
) -> (r: bool)
    ensures
        r == (image_dispatched && vision_refusal(error@) && fallback_ready && !cancelled),
{
    image_dispatched && is_vision_unsupported_error(error) && fallback_ready && !cancelled
}

/// Whether a failed turn is asked once more without tools: the provider
/// refused function calling, the tool-free request was prepared, nothing has
/// streamed yet (a reply being read is never restarted), and the user has
/// not stopped the turn.
pub fn retry_without_tools(
    error: &str,
    fallback_ready: bool,
    first_token_seen: bool,
    cancelled: bool,
) -> (r: bool)
    ensures
        r == (tools_refusal(error@) && fallback_ready && !first_token_seen && !cancelled),
{
    is_tools_unsupported_error(error) && fallback_ready && !first_token_seen && !cancelled
}

/// Whether the model is asked once more, without tools, after its last tool
/// round: when the rounds are used up and the round wrote no answer, so the
/// turn does not end without a reply.
pub fn ask_without_tools_after_rounds(policy: ToolRoundPolicy, answer: &str) -> (r: bool)
    ensures
        r == (policy == ToolRoundPolicy::RunToolsThenStop && trim_ws(answer@).len() == 0),
{
    policy == ToolRoundPolicy::RunToolsThenStop && trim(answer).as_str().is_empty()
}

/// The names of some tool calls.
pub open spec fn tool_call_names(calls: Seq<ToolCall>) -> Seq<Seq<char>> {
    calls.map_values(|c: ToolCall| c.name@)
}

/// Whether a round searches the web (the panel then shows "searching").
pub fn round_searches(calls: &[ToolCall]) -> (r: bool)
    ensures
        r == tool_call_names(calls@).contains("web_search"@),
{
    let ghost names = tool_call_names(calls@);
    let mut i: usize = 0;
    while i < calls.len()
        invariant
            i <= calls@.len(),
            names == tool_call_names(calls@),
            forall|t: int| 0 <= t < i ==> names[t] != "web_search"@,
        decreases calls.len() - i,
    {
        if same_text(calls[i].name.as_str(), "web_search") {
            assert(names[i as int] == "web_search"@);
            return true;
        }
        i += 1;
    }
    false
}

/// The positions of the calls whose result is text, in order: all but the
/// screen captures, whose result is a picture. Those run side by side.
pub open spec fn text_call_positions(names: Seq<Seq<char>>) -> Seq<int>
    decreases names.len(),
{
    if names.len() == 0 {
        Seq::empty()
    } else if names.last() == "capture_screen"@ {
        text_call_positions(names.drop_last())
    } else {
        text_call_positions(names.drop_last()).push(names.len() - 1)
    }
}

/// The positions of the calls of a round whose result is text.
pub fn text_tool_indexes(calls: &[ToolCall]) -> (r: Vec<usize>)
    ensures
        r@.map_values(|i: usize| i as int) == text_call_positions(tool_call_names(calls@)),
{
    let ghost names = tool_call_names(calls@);
    let mut out: Vec<usize> = Vec::new();
    let mut i: usize = 0;
    while i < calls.len()
        invariant
            i <= calls@.len(),
            names == tool_call_names(calls@),
            out@.map_values(|k: usize| k as int) == text_call_positions(names.take(i as int)),
        decreases calls.len() - i,
    {
        let ghost prev = out@;
        proof {
            assert(names.take(i + 1).drop_last() =~= names.take(i as int));
            assert(names.take(i + 1).last() == calls@[i as int].name@);
        }
        if !same_text(calls[i].name.as_str(), "capture_screen") {
            out.push(i);
            proof {
                assert(out@.map_values(|k: usize| k as int) =~= prev.map_values(|k: usize| k as int).push(
                    i as int,
                ));
            }
        }
        i += 1;
    }
    proof {
        assert(names.take(calls@.len() as int) =~= names);
    }
    out
}


/// How the assistant answers a `capture_screen` call.
#[derive(Debug, Clone, Copy, PartialEq, Eq, Structural)]
pub enum ScreenCallStep {
    /// Take a screenshot and attach it.
    Capture,
    /// One was already attached for this message: answer with it.
    AlreadyCaptured,
}

/// The step for a `capture_screen` call, given whether a screenshot was
/// already attached for this message.
pub open spec fn screen_step_spec(captured: bool) -> ScreenCallStep {
    if captured {
        ScreenCallStep::AlreadyCaptured
    } else {
        ScreenCallStep::Capture
    }
}

/// Whether a screenshot is attached for this message after a call: one
/// already was, or this call's capture succeeded.
pub open spec fn after_capture_spec(captured: bool, step: ScreenCallStep, succeeded: bool) -> bool {
    captured || (step == ScreenCallStep::Capture && succeeded)
}

/// How to answer a `capture_screen` call: capture only while no screenshot
/// is attached for this message.
pub fn screen_call_step(captured: bool) -> (r: ScreenCallStep)
    ensures
        r == screen_step_spec(captured),
{
    if captured {
        ScreenCallStep::AlreadyCaptured
    } else {
        ScreenCallStep::Capture
    }
}

/// Whether a screenshot is attached for this message after answering a
/// `capture_screen` call with `step` (a failed capture attaches nothing, so
/// a later call may try again).
pub fn after_capture(captured: bool, step: ScreenCallStep, succeeded: bool) -> (r: bool)
    ensures
        r == after_capture_spec(captured, step, succeeded),
{
    captured || (step == ScreenCallStep::Capture && succeeded)
}

/// The screenshots attached over the `capture_screen` calls of a message,
/// each capture succeeding or not as `outcomes` says, and whether one is
/// attached by the end.
pub open spec fn capture_run(outcomes: Seq<bool>, captured: bool) -> (nat, bool)
    decreases outcomes.len(),
{
    if outcomes.len() == 0 {
        (0, captured)
    } else {
        let (n, c) = capture_run(outcomes.drop_last(), captured);
        let step = screen_step_spec(c);
        let sent: nat = if step == ScreenCallStep::Capture && outcomes.last() {
            1
        } else {
            0
        };
        (n + sent, after_capture_spec(c, step, outcomes.last()))
    }
}

/// At most one screenshot per message: however many times the model calls
/// `capture_screen`, and whichever captures fail, at most one screenshot is
/// attached, and exactly one once any succeeded.
pub proof fn lemma_one_screenshot_per_message(outcomes: Seq<bool>)
    ensures
        capture_run(outcomes, false).0 <= 1,
        capture_run(outcomes, false).0 == 1 <==> capture_run(outcomes, false).1,
    decreases outcomes.len(),
{
    if outcomes.len() > 0 {
        lemma_one_screenshot_per_message(outcomes.drop_last());
    }
}

} // verus!
