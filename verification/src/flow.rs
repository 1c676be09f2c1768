//! "Generate with Flow": a dictation that begins with the activation phrase
//! (by default "Hey Flow") becomes a one-shot generation command, and the
//! generated text is pasted in place of the spoken words.
//!
//! This module decides whether a transcription is such a command, what the
//! command is, and which provider and model it goes to.

use vstd::prelude::*;
use crate::settings::{lookup, lookup_value, pairs_view, AppSettings, PostProcessProvider};
use crate::text::{
    char_is_alphanumeric, chars_of, concat, is_alphanumeric, lead, lead_len_from, lemma_lead_facts,
    lemma_trail_bounded, lemma_words_front, trail,
    lowercase, slice_to_vec, split_whitespace, string_from_chars, to_lowercase, trail_len,
    trim_end_by, trim_start_by, trim, trim_ws, views, words, CharClass,
};
use crate::autolearn::detect::chars_eq;
use crate::assistant::turn::ToolCall;
use crate::text::same_text;

verus! {

/// What the dictation pipeline should do with a finished transcription.
#[derive(Debug, Clone, PartialEq, Eq)]
pub enum FlowPlan {
    /// Not a Flow command: continue as ordinary dictation.
    NotFlow,
    /// The phrase matched but no assistant provider and model are configured.
    /// Continue as ordinary dictation, and tell the user why.
    Unconfigured,
    /// The user said only the activation phrase, with no command after it.
    EmptyCommand,
    /// Generate: the phrase matched and Flow is ready to run.
    Generate { command: String },
}

/// The plan, as a value of the specification.
pub ghost enum PlanView {
    NotFlow,
    Unconfigured,
    EmptyCommand,
    Generate(Seq<char>),
}

impl View for FlowPlan {
    type V = PlanView;

    open spec fn view(&self) -> PlanView {
        match self {
            FlowPlan::NotFlow => PlanView::NotFlow,
            FlowPlan::Unconfigured => PlanView::Unconfigured,
            FlowPlan::EmptyCommand => PlanView::EmptyCommand,
            FlowPlan::Generate { command } => PlanView::Generate(command@),
        }
    }
}

/// The assistant provider, model and key that Flow reuses.
pub struct FlowLlm {
    pub provider: PostProcessProvider,
    pub model: String,
    pub api_key: String,
}

/// The characters of `s` that are letters or digits, in order.
pub open spec fn alnum_only(s: Seq<char>) -> Seq<char>
    decreases s.len(),
{
    if s.len() == 0 {
        Seq::empty()
    } else if char_is_alphanumeric(s.last()) {
        alnum_only(s.drop_last()).push(s.last())
    } else {
        alnum_only(s.drop_last())
    }
}

/// A spoken token as it is compared with the phrase: its letters and digits,
/// lowercased, so "Hey," matches "hey".
pub open spec fn normalized(token: Seq<char>) -> Seq<char> {
    lowercase(alnum_only(token))
}

/// The normalized words of the activation phrase, without those that are
/// punctuation only.
pub open spec fn phrase_tokens(ws: Seq<Seq<char>>) -> Seq<Seq<char>>
    decreases ws.len(),
{
    if ws.len() == 0 {
        Seq::empty()
    } else if normalized(ws.last()).len() > 0 {
        phrase_tokens(ws.drop_last()).push(normalized(ws.last()))
    } else {
        phrase_tokens(ws.drop_last())
    }
}

/// Where the phrase `toks` ends in `t`, when `t` begins with it: the words
/// of `t` are read in order, a word that is punctuation only is skipped, and
/// every other word must equal the next token. `None` when a word differs or
/// `t` ends first.
pub open spec fn match_phrase(t: Seq<char>, toks: Seq<Seq<char>>) -> Option<nat>
    decreases t.len(),
{
    if toks.len() == 0 {
        Some(0)
    } else {
        let l = lead(t, CharClass::Whitespace);
        if l >= t.len() {
            None
        } else {
            let rest = t.skip(l as int);
            let wl = lead(rest, CharClass::NonWhitespace);
            let w = normalized(rest.take(wl as int));
            let after = rest.skip(wl as int);
            proof {
                lemma_lead_facts(t, CharClass::Whitespace);
                lemma_lead_facts(rest, CharClass::NonWhitespace);
                assert(rest[0] == t[l as int]);
            }
            if w.len() == 0 {
                match match_phrase(after, toks) {
                    Some(c) => Some(c + l + wl),
                    None => None,
                }
            } else if w != toks[0] {
                None
            } else {
                match match_phrase(after, toks.drop_first()) {
                    Some(c) => Some(c + l + wl),
                    None => None,
                }
            }
        }
    }
}

/// The command of a transcription that begins with the activation phrase:
/// what follows the phrase, without the whitespace and punctuation that
/// separate it from the phrase and without trailing whitespace. `None` when
/// the phrase has no words or does not lead the transcription.
pub open spec fn strip_spec(transcript: Seq<char>, phrase: Seq<char>) -> Option<Seq<char>> {
    let toks = phrase_tokens(words(phrase));
    if toks.len() == 0 {
        None
    } else {
        match match_phrase(transcript, toks) {
            Some(c) => Some(
                trim_end_by(
                    trim_start_by(transcript.skip(c as int), CharClass::CommandLead),
                    CharClass::Whitespace,
                ),
            ),
            None => None,
        }
    }
}

/// `normalized`, on characters.
fn normalize_chars(token: &[char]) -> (r: Vec<char>)
    ensures
        r@ == normalized(token@),
{
    let mut kept: Vec<char> = Vec::new();
    let mut i: usize = 0;
    while i < token.len()
        invariant
            i <= token@.len(),
            kept@ == alnum_only(token@.take(i as int)),
        decreases token.len() - i,
    {
        proof {
            assert(token@.take(i + 1).drop_last() =~= token@.take(i as int));
        }
        if is_alphanumeric(token[i]) {
            kept.push(token[i]);
        }
        i += 1;
    }
    proof {
        assert(token@.take(token@.len() as int) =~= token@);
    }
    let s = string_from_chars(kept.as_slice());
    chars_of(to_lowercase(s.as_str()).as_str())
}

/// Lowercase a spoken token and drop its punctuation, so "Hey," matches
/// "hey".
pub fn normalize_token(token: &str) -> (r: String)
    ensures
        r@ == normalized(token@),
{
    let c = chars_of(token);
    let n = normalize_chars(c.as_slice());
    string_from_chars(n.as_slice())
}

/// The tokens of the activation phrase.
fn phrase_tokens_of(phrase: &str) -> (r: Vec<Vec<char>>)
    ensures
        views(r@) == phrase_tokens(words(phrase@)),
{
    let ws = split_whitespace(chars_of(phrase).as_slice());
    let ghost sw = views(ws@);
    let mut out: Vec<Vec<char>> = Vec::new();
    let mut i: usize = 0;
    while i < ws.len()
        invariant
            i <= ws@.len(),
            sw == views(ws@),
            views(out@) == phrase_tokens(sw.take(i as int)),
        decreases ws.len() - i,
    {
        proof {
            assert(sw.take(i + 1).drop_last() =~= sw.take(i as int));
            assert(sw.take(i + 1).last() == ws@[i as int]@);
        }
        let n = normalize_chars(ws[i].as_slice());
        if n.len() > 0 {
            let ghost before = views(out@);
            out.push(n);
            proof {
                assert(views(out@) =~= before.push(n@));
            }
        }
        i += 1;
    }
    proof {
        assert(sw.take(ws@.len() as int) =~= sw);
    }
    out
}

/// If `transcript` begins with the activation `phrase` (word by word,
/// ignoring case and punctuation), the command after it, with the phrase and
/// any separating punctuation removed and the command's own casing and
/// formatting kept. `None` when the phrase does not lead, or has no words.
pub fn strip_activation_phrase(transcript: &str, phrase: &str) -> (r: Option<String>)
    ensures
        match r {
            Some(c) => strip_spec(transcript@, phrase@) == Some(c@),
            None => strip_spec(transcript@, phrase@) is None,
        },
{
    let toks = phrase_tokens_of(phrase);
    let ghost tv = views(toks@);
    if toks.len() == 0 {
        return None;
    }
    let t = chars_of(transcript);
    let ghost ts = t@;
    let len = t.len();
    let mut cursor: usize = 0;
    let mut matched: usize = 0;
    proof {
        assert(ts.skip(0) =~= ts);
        assert(tv.skip(0) =~= tv);
    }
    while matched < toks.len()
        invariant
            ts == t@,
            ts == transcript@,
            tv == phrase_tokens(words(phrase@)),
            len == ts.len(),
            tv == views(toks@),
            cursor <= len,
            matched <= tv.len(),
            match_phrase(ts, tv) == match match_phrase(ts.skip(cursor as int), tv.skip(matched as int)) {
                Some(c) => Some((c + cursor) as nat),
                None => None,
            },
        decreases len - cursor, tv.len() - matched,
    {
        let ghost here = ts.skip(cursor as int);
        let ghost rest_toks = tv.skip(matched as int);
        let l = lead_len_from(t.as_slice(), cursor, CharClass::Whitespace);
        proof {
            lemma_lead_facts(here, CharClass::Whitespace);
        }
        proof {
            assert(rest_toks.len() > 0);
        }
        if cursor + l >= len {
            assert(match_phrase(here, rest_toks) is None);
            return None;
        }
        let start = cursor + l;
        let wl = lead_len_from(t.as_slice(), start, CharClass::NonWhitespace);
        let end = start + wl;
        let ghost rest = here.skip(l as int);
        proof {
            assert(rest =~= ts.skip(start as int));
            lemma_lead_facts(rest, CharClass::NonWhitespace);
            assert(rest[0] == here[l as int]);
        }
        let word = slice_to_vec(t.as_slice(), start, end);
        let w = normalize_chars(word.as_slice());
        proof {
            assert(word@ =~= rest.take(wl as int));
            assert(rest.skip(wl as int) =~= ts.skip(end as int));
            assert(rest_toks.len() > 0);
        }
        cursor = end;
        if w.len() == 0 {
            continue;
        }
        proof {
            assert(rest_toks[0] == tv[matched as int]);
            assert(tv[matched as int] == toks@[matched as int]@);
        }
        if !chars_eq(w.as_slice(), toks[matched].as_slice()) {
            assert(w@ != rest_toks[0]);
            assert(match_phrase(here, rest_toks) is None);
            return None;
        }
        proof {
            assert(rest_toks.drop_first() =~= tv.skip(matched + 1));
        }
        matched += 1;
    }
    proof {
        assert(tv.skip(matched as int).len() == 0);
    }
    let a = lead_len_from(t.as_slice(), cursor, CharClass::CommandLead);
    let rest = slice_to_vec(t.as_slice(), cursor + a, len);
    proof {
        assert(rest@ =~= trim_start_by(ts.skip(cursor as int), CharClass::CommandLead));
    }
    let b = trail_len(rest.as_slice(), CharClass::Whitespace);
    let command = slice_to_vec(rest.as_slice(), 0, rest.len() - b);
    Some(string_from_chars(command.as_slice()))
}

/// The stateless Flow system prompt. Everything the model outputs is pasted
/// verbatim, so the prompt forbids conversational framing entirely.
pub const FLOW_PROMPT: &'static str = "You are Flow, a silent writing engine inside a dictation app. The user spoke a command; your ENTIRE response is pasted directly into whatever application they are using, exactly as-is. Nobody reads it as a chat message.\n\nRules:\n- Output ONLY the requested content. No greetings, no preamble (never \"Sure\", \"Here is\", \"Certainly\"), no explanations, no closing remarks, no offers to help further.\n- NEVER ask questions or request clarification. If details are missing, make sensible neutral assumptions and produce the best complete result anyway.\n- Do not wrap the whole output in quotation marks or a code fence unless the content itself is code that the user asked for in Markdown.\n- Preserve real formatting: paragraphs, line breaks, lists, tables, Markdown, and code indentation. For a code request, output raw code only \u{2014} correct indentation, no surrounding fence, no commentary.\n- For an email or letter, produce the complete ready-to-send text (a subject line only when one is clearly useful), and never placeholders like [Your Name] unless the name is genuinely unknowable.\n- Write in the same language the command was spoken in, unless the command says otherwise.\n";

/// The part of the Flow prompt that offers the screen-capture tool.
pub const FLOW_SCREEN_TOOL: &'static str = "\n## Tool\nYou may call capture_screen() ONCE to see the user's current screen. Call it ONLY when the command clearly refers to something on screen (\"this email\", \"the text above\", \"look at\", \"reply to this\", \"summarize this page\"). For self-contained commands, generate directly without capturing. After looking, still output only the finished content.\n";

/// The Flow system prompt, with the screen-capture tool described when the
/// model may use it.
pub fn flow_system_prompt(screen_tool: bool) -> (r: String)
    ensures
        r@ == if screen_tool {
            FLOW_PROMPT@ + FLOW_SCREEN_TOOL@
        } else {
            FLOW_PROMPT@
        },
{
    if screen_tool {
        concat(FLOW_PROMPT, FLOW_SCREEN_TOOL)
    } else {
        FLOW_PROMPT.to_owned()
    }
}

/// The provider, model and key Flow uses: the assistant's provider, with the
/// model and key filed under its id. `None` without a provider, or when its
/// model is blank.
pub open spec fn resolve_spec(settings: AppSettings) -> Option<
    ((Seq<char>, Seq<char>, Seq<char>), Seq<char>, Seq<char>),
> {
    match settings.assistant_provider {
        None => None,
        Some(p) => {
            let model = lookup(pairs_view(settings.assistant_models@), p.id@);
            if trim_ws(model).len() == 0 {
                None
            } else {
                Some((p@, model, lookup(pairs_view(settings.post_process_api_keys@), p.id@)))
            }
        },
    }
}

/// The view of a resolved Flow model.
pub open spec fn llm_view(r: Option<FlowLlm>) -> Option<
    ((Seq<char>, Seq<char>, Seq<char>), Seq<char>, Seq<char>),
> {
    match r {
        Some(l) => Some((l.provider@, l.model@, l.api_key@)),
        None => None,
    }
}

/// Resolve the assistant's active provider and model for Flow. `None` when
/// no provider is selected or it has no model configured; Flow then falls
/// back to ordinary dictation rather than failing the paste.
pub fn resolve_flow_llm(settings: &AppSettings) -> (r: Option<FlowLlm>)
    ensures
        llm_view(r) == resolve_spec(*settings),
{
    let provider = match &settings.assistant_provider {
        None => {
            return None;
        },
        Some(p) => p.duplicate(),
    };
    let model = lookup_value(&settings.assistant_models, &provider.id);
    let trimmed = trim(model.as_str());
    if trimmed.unicode_len() == 0 {
        return None;
    }
    let api_key = lookup_value(&settings.post_process_api_keys, &provider.id);
    Some(FlowLlm { provider, model, api_key })
}

/// What to do with a finished dictation, as a value of the specification.
pub open spec fn plan_spec(settings: AppSettings, transcription: Seq<char>) -> PlanView {
    if !settings.flow_enabled {
        PlanView::NotFlow
    } else {
        match strip_spec(transcription, settings.flow_phrase@) {
            None => PlanView::NotFlow,
            Some(command) => if resolve_spec(settings) is None {
                PlanView::Unconfigured
            } else if command.len() == 0 {
                PlanView::EmptyCommand
            } else {
                PlanView::Generate(command)
            },
        }
    }
}

/// Decide what to do with a finished dictation transcription.
pub fn plan_flow(settings: &AppSettings, transcription: &str) -> (r: FlowPlan)
    ensures
        r@ == plan_spec(*settings, transcription@),
{
    if !settings.flow_enabled {
        return FlowPlan::NotFlow;
    }
    let command = match strip_activation_phrase(transcription, settings.flow_phrase.as_str()) {
        None => {
            return FlowPlan::NotFlow;
        },
        Some(c) => c,
    };
    if resolve_flow_llm(settings).is_none() {
        return FlowPlan::Unconfigured;
    }
    if command.unicode_len() == 0 {
        return FlowPlan::EmptyCommand;
    }
    FlowPlan::Generate { command }
}


/// Where the phrase ends lies within the transcript.
proof fn lemma_match_phrase_bounded(t: Seq<char>, toks: Seq<Seq<char>>)
    ensures
        match_phrase(t, toks) matches Some(c) ==> c <= t.len(),
    decreases t.len(),
{
    if toks.len() > 0 {
        let l = lead(t, CharClass::Whitespace);
        lemma_lead_facts(t, CharClass::Whitespace);
        if l < t.len() {
            let rest = t.skip(l as int);
            let wl = lead(rest, CharClass::NonWhitespace);
            lemma_lead_facts(rest, CharClass::NonWhitespace);
            assert(rest[0] == t[l as int]);
            let after = rest.skip(wl as int);
            lemma_match_phrase_bounded(after, toks);
            lemma_match_phrase_bounded(after, toks.drop_first());
        }
    }
}

/// `part` is a contiguous part of `whole`.
pub open spec fn is_part_of(whole: Seq<char>, part: Seq<char>) -> bool {
    exists|i: int|
        0 <= i && i + part.len() <= whole.len() && #[trigger] whole.subrange(i, i + part.len())
            == part
}

/// The command keeps the transcript's own text: it is a contiguous part of
/// the transcript, with its casing and formatting.
pub proof fn lemma_command_is_part_of_transcript(transcript: Seq<char>, phrase: Seq<char>)
    ensures
        strip_spec(transcript, phrase) matches Some(c) ==> is_part_of(transcript, c),
{
    let toks = phrase_tokens(words(phrase));
    if toks.len() > 0 {
        lemma_match_phrase_bounded(transcript, toks);
        if let Some(c0) = match_phrase(transcript, toks) {
            let rest = transcript.skip(c0 as int);
            let a = lead(rest, CharClass::CommandLead);
            lemma_lead_facts(rest, CharClass::CommandLead);
            let mid = rest.skip(a as int);
            let b = trail(mid, CharClass::Whitespace);
            lemma_trail_bounded(mid, CharClass::Whitespace);
            let c = mid.take(mid.len() - b);
            let i: int = (c0 + a) as int;
            assert(transcript.subrange(i, i + c.len()) =~= c);
            assert(is_part_of(transcript, c));
        }
    }
}


/// A Flow generation gives up after this many seconds.
pub const FLOW_TIMEOUT_SECS: u64 = 90;

/// A screen-permitted Flow generation takes at most this many model rounds.
pub const MAX_FLOW_TOOL_ROUNDS: usize = 3;

/// The name of the one tool Flow offers.
pub const CAPTURE_SCREEN_TOOL: &'static str = "capture_screen";

/// The tool result that says the screenshot follows.
pub const FLOW_SCREENSHOT_ATTACHED: &'static str =
    "Screenshot captured. It is attached in the next message.";

/// The caption of the screenshot message.
pub const FLOW_SCREENSHOT_CAPTION: &'static str =
    "[Screenshot of the current screen, from the capture_screen tool. Use it to fulfill the command, then output only the finished content.]";

/// The tool result when the capture failed.
pub const FLOW_CAPTURE_FAILED: &'static str =
    "Screen capture failed. Produce the best result you can without it.";

/// The tool result for a second capture in one command.
pub const FLOW_ALREADY_CAPTURED: &'static str =
    "A screenshot was already captured for this command. Produce the final content now.";

/// The tool result for a tool Flow does not offer.
pub const FLOW_UNKNOWN_TOOL: &'static str = "Unknown tool. Produce the final content now.";

/// The error when a generation produced nothing to paste.
pub const FLOW_NO_CONTENT: &'static str = "Flow returned no content";

/// What to do after a model round of a screen-permitted generation.
#[derive(Debug, Clone, Copy, PartialEq, Eq, Structural)]
pub enum FlowRoundStep {
    /// The round called no tool: its text is the result.
    Finish,
    /// Answer the tool calls, then ask the model again.
    AnswerTools,
    /// The rounds are used up: the round's text is the result.
    GiveUp,
}

/// What to do after round `round` (counted from zero), which called
/// `tool_calls` tools.
pub fn flow_round_step(tool_calls: usize, round: usize) -> (r: FlowRoundStep)
    ensures
        r == if tool_calls == 0 {
            FlowRoundStep::Finish
        } else if round + 1 >= MAX_FLOW_TOOL_ROUNDS {
            FlowRoundStep::GiveUp
        } else {
            FlowRoundStep::AnswerTools
        },
{
    if tool_calls == 0 {
        FlowRoundStep::Finish
    } else if round >= MAX_FLOW_TOOL_ROUNDS - 1 {
        FlowRoundStep::GiveUp
    } else {
        FlowRoundStep::AnswerTools
    }
}

/// How a tool call of a Flow round is answered.
#[derive(Debug, Clone, Copy, PartialEq, Eq, Structural)]
pub enum FlowToolReply {
    /// Take the screenshot and send it.
    CaptureScreen,
    /// A screenshot was already taken for this command.
    AlreadyCaptured,
    /// Not a tool Flow offers.
    UnknownTool,
}

/// The answers to tool calls named `names`, in order, and whether a
/// screenshot was taken by the end, when `captured` says whether one was
/// taken before: only the first capture of a command is honoured.
pub open spec fn tool_replies_spec(names: Seq<Seq<char>>, captured: bool) -> (
    Seq<FlowToolReply>,
    bool,
)
    decreases names.len(),
{
    if names.len() == 0 {
        (Seq::empty(), captured)
    } else {
        let (prev, c) = tool_replies_spec(names.drop_last(), captured);
        if names.last() == CAPTURE_SCREEN_TOOL@ && !c {
            (prev.push(FlowToolReply::CaptureScreen), true)
        } else if names.last() == CAPTURE_SCREEN_TOOL@ {
            (prev.push(FlowToolReply::AlreadyCaptured), c)
        } else {
            (prev.push(FlowToolReply::UnknownTool), c)
        }
    }
}

/// How many of some answers take a screenshot.
pub open spec fn captures(s: Seq<FlowToolReply>) -> nat
    decreases s.len(),
{
    if s.len() == 0 {
        0
    } else {
        captures(s.drop_last()) + if s.last() == FlowToolReply::CaptureScreen {
            1nat
        } else {
            0nat
        }
    }
}

/// The names of some tool calls.
pub open spec fn call_names(calls: Seq<ToolCall>) -> Seq<Seq<char>> {
    calls.map_values(|c: ToolCall| c.name@)
}

/// At most one screenshot per command: the answers to a round take one only
/// when none was taken before, and then exactly one, whatever the model
/// asked for.
pub proof fn lemma_one_screenshot_per_command(names: Seq<Seq<char>>, captured: bool)
    ensures
        captures(tool_replies_spec(names, captured).0) == if tool_replies_spec(names, captured).1
            && !captured {
            1nat
        } else {
            0nat
        },
        captured ==> tool_replies_spec(names, captured).1,
        tool_replies_spec(names, captured).0.len() == names.len(),
    decreases names.len(),
{
    if names.len() > 0 {
        lemma_one_screenshot_per_command(names.drop_last(), captured);
        let (prev, c) = tool_replies_spec(names.drop_last(), captured);
        let r = tool_replies_spec(names, captured).0;
        assert(r.drop_last() =~= prev);
    }
}

/// Answer the tool calls of a round: the first `capture_screen` of the
/// command takes the screenshot, a later one is told one was taken, and any
/// other tool is unknown. Also gives whether a screenshot was taken by the
/// end.
pub fn flow_tool_replies(calls: &[ToolCall], captured: bool) -> (r: (Vec<FlowToolReply>, bool))
    ensures
        (r.0@, r.1) == tool_replies_spec(call_names(calls@), captured),
{
    let ghost names = call_names(calls@);
    let mut out: Vec<FlowToolReply> = Vec::new();
    let mut c = captured;
    let mut i: usize = 0;
    while i < calls.len()
        invariant
            i <= calls@.len(),
            names == call_names(calls@),
            (out@, c) == tool_replies_spec(names.take(i as int), captured),
        decreases calls.len() - i,
    {
        proof {
            assert(names.take(i + 1).drop_last() =~= names.take(i as int));
            assert(names.take(i + 1).last() == calls@[i as int].name@);
        }
        let is_capture = same_text(calls[i].name.as_str(), CAPTURE_SCREEN_TOOL);
        if is_capture && !c {
            out.push(FlowToolReply::CaptureScreen);
            c = true;
        } else if is_capture {
            out.push(FlowToolReply::AlreadyCaptured);
        } else {
            out.push(FlowToolReply::UnknownTool);
        }
        i += 1;
    }
    proof {
        assert(names.take(calls@.len() as int) =~= names);
    }
    (out, c)
}

/// The text to paste from what a generation returned: the trimmed text, or
/// an error when nothing is left.
pub fn finish_flow_text(text: &str) -> (r: Result<String, String>)
    ensures
        match r {
            Ok(t) => trim_ws(text@).len() > 0 && t@ == trim_ws(text@),
            Err(e) => trim_ws(text@).len() == 0 && e@ == FLOW_NO_CONTENT@,
        },
{
    let t = trim(text);
    if t.as_str().is_empty() {
        Err(FLOW_NO_CONTENT.to_string())
    } else {
        Ok(t)
    }
}

/// The error of a Flow generation when no model is configured for it.
pub const FLOW_NOT_CONFIGURED: &'static str = "Flow is not configured";

/// The error of a Flow generation that ran longer than `FLOW_TIMEOUT_SECS`.
pub const FLOW_TIMED_OUT: &'static str = "Flow generation timed out";

/// The model a Flow generation runs on, or `FLOW_NOT_CONFIGURED` when
/// `resolve_flow_llm` finds none.
pub fn flow_llm_or_error(settings: &AppSettings) -> (r: Result<FlowLlm, String>)
    ensures
        match r {
            Ok(l) => llm_view(Some(l)) == resolve_spec(*settings),
            Err(e) => resolve_spec(*settings) is None && e@ == FLOW_NOT_CONFIGURED@,
        },
{
    match resolve_flow_llm(settings) {
        Some(l) => Ok(l),
        None => Err(FLOW_NOT_CONFIGURED.to_string()),
    }
}

/// The result of a Flow generation from how it ended: `None` when it was
/// cut off after `FLOW_TIMEOUT_SECS`, which gives `FLOW_TIMED_OUT`; an error
/// that stopped it, which is passed on; or the text of its last round,
/// which `finish_flow_text` turns into the text to paste.
pub fn flow_generation_outcome(ended: Option<Result<String, String>>) -> (r: Result<String, String>)
    ensures
        match ended {
            None => r matches Err(e) && e@ == FLOW_TIMED_OUT@,
            Some(Err(e)) => r matches Err(f) && f@ == e@,
            Some(Ok(text)) => match r {
                Ok(t) => trim_ws(text@).len() > 0 && t@ == trim_ws(text@),
                Err(e) => trim_ws(text@).len() == 0 && e@ == FLOW_NO_CONTENT@,
            },
        },
{
    match ended {
        None => Err(FLOW_TIMED_OUT.to_string()),
        Some(Err(e)) => Err(e),
        Some(Ok(text)) => finish_flow_text(text.as_str()),
    }
}

/// The spoken tokens of `a` then `b` are those of `a`, then those of `b`.
proof fn lemma_phrase_tokens_concat(a: Seq<Seq<char>>, b: Seq<Seq<char>>)
    ensures
        phrase_tokens(a + b) == phrase_tokens(a) + phrase_tokens(b),
    decreases b.len(),
{
    if b.len() == 0 {
        assert(a + b =~= a);
        assert(phrase_tokens(a) + phrase_tokens(b) =~= phrase_tokens(a));
    } else {
        lemma_phrase_tokens_concat(a, b.drop_last());
        assert((a + b).drop_last() =~= a + b.drop_last());
        assert((a + b).last() == b.last());
        assert((phrase_tokens(a) + phrase_tokens(b.drop_last())).push(normalized(b.last()))
            =~= phrase_tokens(a) + phrase_tokens(b.drop_last()).push(normalized(b.last())));
    }
}

/// Where `match_phrase` finds the phrase, the transcript's own words,
/// normalized and without those that are punctuation only, begin with the
/// phrase's tokens.
proof fn lemma_match_reads_words(t: Seq<char>, toks: Seq<Seq<char>>)
    requires
        match_phrase(t, toks) is Some,
    ensures
        phrase_tokens(words(t)).len() >= toks.len(),
        phrase_tokens(words(t)).take(toks.len() as int) == toks,
    decreases t.len(),
{
    if toks.len() > 0 {
        let l = lead(t, CharClass::Whitespace);
        lemma_words_front(t);
        let rest = t.skip(l as int);
        let wl = lead(rest, CharClass::NonWhitespace);
        let raw = rest.take(wl as int);
        let after = rest.skip(wl as int);
        lemma_lead_facts(t, CharClass::Whitespace);
        lemma_lead_facts(rest, CharClass::NonWhitespace);
        lemma_phrase_tokens_concat(seq![raw], words(after));
        assert(seq![raw].drop_last() =~= Seq::<Seq<char>>::empty());
        assert(seq![raw].last() == raw);
        assert(phrase_tokens(seq![raw].drop_last()) =~= Seq::<Seq<char>>::empty());
        let w = normalized(raw);
        if w.len() == 0 {
            assert(phrase_tokens(seq![raw]) =~= Seq::<Seq<char>>::empty());
            lemma_match_reads_words(after, toks);
            assert(phrase_tokens(words(t)) =~= phrase_tokens(words(after)));
        } else {
            assert(phrase_tokens(seq![raw]) =~= seq![w]);
            lemma_match_reads_words(after, toks.drop_first());
            let spoken = phrase_tokens(words(t));
            assert(spoken =~= seq![w] + phrase_tokens(words(after)));
            let pa = phrase_tokens(words(after));
            assert(w == toks[0]);
            assert forall|i: int| 0 <= i < toks.len() implies spoken.take(toks.len() as int)[i]
                == toks[i] by {
                if i > 0 {
                    assert(spoken[i] == pa[i - 1]);
                    assert(pa.take(toks.len() - 1)[i - 1] == toks.drop_first()[i - 1]);
                }
            }
            assert(spoken.take(toks.len() as int) =~= toks);
        }
    }
}

/// A transcript gives a command only when its words begin with the
/// activation phrase, word for word: the transcript's words, normalized and
/// without those that are punctuation only, start with exactly the phrase's
/// tokens. A word that only starts like a phrase word does not match it.
pub proof fn lemma_command_follows_the_whole_phrase(transcript: Seq<char>, phrase: Seq<char>)
    ensures
        strip_spec(transcript, phrase) is Some ==> {
            let toks = phrase_tokens(words(phrase));
            let spoken = phrase_tokens(words(transcript));
            &&& toks.len() > 0
            &&& spoken.len() >= toks.len()
            &&& spoken.take(toks.len() as int) == toks
        },
{
    if strip_spec(transcript, phrase) is Some {
        lemma_match_reads_words(transcript, phrase_tokens(words(phrase)));
    }
}

} // verus!
