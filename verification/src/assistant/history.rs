//! The conversation a session holds between turns: its messages, whether a
//! turn is running or was stopped, the history row it is saved to, the rolling
//! summary of its older part and how much of it was distilled into memory;
//! and which of its messages a request sends.

use vstd::prelude::*;
use crate::assistant::conversation::{kept_lines, lines, messages_view, strip_markers, ChatMessage};
use crate::text::{ascii_lower, concat, has_substring, same_text, str_contains, to_ascii_lowercase, trim, trim_ws};
use vstd::utf8::encode_utf8;
use crate::clock::{datetime_line, local_now_texts, DATETIME_LINE_FORMAT, DATE_FORMAT, TIME_FORMAT};

verus! {

/// What a conversation holds, as a value of the specification.
pub ghost struct ConversationView {
    /// The messages, each as its role and content.
    pub messages: Seq<(Seq<char>, Seq<char>)>,
    /// A turn is in flight.
    pub busy: bool,
    /// The current turn was stopped by the user.
    pub cancelled: bool,
    /// The history row the conversation is saved to, if any.
    pub session_id: Option<i64>,
    /// How many messages the last distillation into memory covered.
    pub distilled_len: nat,
    /// The rolling summary of the older messages.
    pub summary: Seq<char>,
    /// How many leading messages the rolling summary stands for.
    pub summarized_len: nat,
    /// A background summarization pass is running.
    pub summarizing: bool,
}

/// The conversation of the assistant, with the bookkeeping around it.
pub struct AssistantConversation {
    messages: Vec<ChatMessage>,
    busy: bool,
    cancelled: bool,
    session_id: Option<i64>,
    last_distilled_len: usize,
    summary: String,
    summarized_len: usize,
    summarizing: bool,
}

impl View for AssistantConversation {
    type V = ConversationView;

    closed spec fn view(&self) -> ConversationView {
        ConversationView {
            messages: messages_view(self.messages@),
            busy: self.busy,
            cancelled: self.cancelled,
            session_id: self.session_id,
            distilled_len: self.last_distilled_len as nat,
            summary: self.summary@,
            summarized_len: self.summarized_len as nat,
            summarizing: self.summarizing,
        }
    }
}

/// The number of messages whose role is "user".
pub open spec fn user_turns(m: Seq<(Seq<char>, Seq<char>)>) -> nat
    decreases m.len(),
{
    if m.len() == 0 {
        0
    } else {
        user_turns(m.drop_last()) + if m.last().0 == "user"@ {
            1nat
        } else {
            0nat
        }
    }
}

/// A conversation is worth distilling into memory when it grew since the
/// last pass and holds at least two user turns.
pub open spec fn distillable(s: ConversationView) -> bool {
    s.messages.len() > s.distilled_len && user_turns(s.messages) >= 2
}

/// The conversation without a rolling summary and with no pass running.
pub open spec fn summary_cleared(s: ConversationView) -> ConversationView {
    ConversationView { summary: Seq::empty(), summarized_len: 0, summarizing: false, ..s }
}

/// What claiming the turn slot does: whether it was free, and the
/// conversation afterwards.
pub open spec fn claim_outcome(s: ConversationView) -> (bool, ConversationView) {
    (!s.busy, ConversationView { busy: true, ..s })
}

/// What claiming the summarization slot does: whether it was free, and the
/// conversation afterwards.
pub open spec fn summarizing_outcome(s: ConversationView) -> (bool, ConversationView) {
    (!s.summarizing, ConversationView { summarizing: true, ..s })
}

/// What taking the conversation for distillation does: the messages, when
/// it is worth it, and the conversation afterwards.
pub open spec fn distill_outcome(s: ConversationView) -> (
    Option<Seq<(Seq<char>, Seq<char>)>>,
    ConversationView,
) {
    if distillable(s) {
        (Some(s.messages), ConversationView { distilled_len: s.messages.len(), ..s })
    } else {
        (None, s)
    }
}

/// What taking back the last exchange does (to ask again): the newest
/// message goes when it is the assistant's; then, when the newest is the
/// user's, it goes too and its text, without attachment markers, is given.
pub open spec fn last_exchange_outcome(s: ConversationView) -> (Option<Seq<char>>, ConversationView) {
    let m = if s.messages.len() > 0 && s.messages.last().0 == "assistant"@ {
        s.messages.drop_last()
    } else {
        s.messages
    };
    if m.len() > 0 && m.last().0 == "user"@ {
        (
            Some(trim_ws(kept_lines(lines(m.last().1)))),
            ConversationView { messages: m.drop_last(), ..s },
        )
    } else {
        (None, ConversationView { messages: m, ..s })
    }
}

/// What starting a new exchange does: the conversation worth distilling is
/// taken (as `distill_outcome`); then, unless the conversation was already
/// empty and nothing was taken, it is emptied, detached from its history
/// row, its summary and distillation marker forgotten. Gives whether it was
/// reset, what was taken, and the conversation afterwards.
pub open spec fn new_exchange_outcome(s: ConversationView) -> (
    bool,
    Option<Seq<(Seq<char>, Seq<char>)>>,
    ConversationView,
) {
    let (taken, t) = distill_outcome(s);
    if t.messages.len() == 0 && taken is None {
        (false, taken, t)
    } else {
        (
            true,
            taken,
            summary_cleared(
                ConversationView {
                    messages: Seq::empty(),
                    session_id: None,
                    distilled_len: 0,
                    ..t
                },
            ),
        )
    }
}

/// How the conversation is saved to the history after a turn.
#[derive(Debug, Clone, Copy, PartialEq, Eq, Structural)]
pub enum SaveStep {
    /// Nothing to save: the conversation is empty.
    Skip,
    /// Update history row `0`.
    Update(i64),
    /// Create a new history row.
    Create,
}

/// Copies of some messages, in order.
fn copy_messages(v: &[ChatMessage], from: usize, to: usize) -> (r: Vec<ChatMessage>)
    requires
        from <= to <= v@.len(),
    ensures
        messages_view(r@) == messages_view(v@).subrange(from as int, to as int),
{
    let ghost all = messages_view(v@);
    let mut out: Vec<ChatMessage> = Vec::new();
    let mut i: usize = from;
    while i < to
        invariant
            from <= i <= to <= v@.len(),
            all == messages_view(v@),
            messages_view(out@) == all.subrange(from as int, i as int),
        decreases to - i,
    {
        let ghost before = messages_view(out@);
        out.push(ChatMessage { role: v[i].role.clone(), content: v[i].content.clone() });
        proof {
            assert(messages_view(out@) =~= before.push(v@[i as int]@));
            assert(all.subrange(from as int, i + 1) =~= all.subrange(from as int, i as int).push(
                all[i as int],
            ));
        }
        i += 1;
    }
    out
}

/// The number of user turns among some messages.
fn count_user_turns(v: &[ChatMessage]) -> (r: usize)
    ensures
        r == user_turns(messages_view(v@)),
{
    let ghost all = messages_view(v@);
    let mut n: usize = 0;
    let mut i: usize = 0;
    while i < v.len()
        invariant
            i <= v@.len(),
            all == messages_view(v@),
            n <= i,
            n == user_turns(all.take(i as int)),
        decreases v.len() - i,
    {
        proof {
            assert(all.take(i + 1).drop_last() =~= all.take(i as int));
        }
        if same_text(v[i].role.as_str(), "user") {
            n += 1;
        }
        i += 1;
    }
    proof {
        assert(all.take(v@.len() as int) =~= all);
    }
    n
}

impl AssistantConversation {
    /// An empty conversation: no turn running, nothing saved, summarized or
    /// distilled.
    pub fn new() -> (r: Self)
        ensures
            r@ == (ConversationView {
                messages: Seq::empty(),
                busy: false,
                cancelled: false,
                session_id: None,
                distilled_len: 0,
                summary: Seq::empty(),
                summarized_len: 0,
                summarizing: false,
            }),
    {
        let r = AssistantConversation {
            messages: Vec::new(),
            busy: false,
            cancelled: false,
            session_id: None,
            last_distilled_len: 0,
            summary: String::new(),
            summarized_len: 0,
            summarizing: false,
        };
        proof {
            assert(messages_view(r.messages@) =~= Seq::empty());
        }
        r
    }

    /// The messages, oldest first.
    pub fn messages(&self) -> (r: &Vec<ChatMessage>)
        ensures
            messages_view(r@) == self@.messages,
    {
        &self.messages
    }

    /// Append a message.
    pub fn push_message(&mut self, message: ChatMessage)
        ensures
            final(self)@ == (ConversationView {
                messages: old(self)@.messages.push(message@),
                ..old(self)@
            }),
    {
        let ghost before = messages_view(self.messages@);
        self.messages.push(message);
        proof {
            assert(messages_view(self.messages@) =~= before.push(message@));
        }
    }

    /// Drop every message.
    pub fn clear_messages(&mut self)
        ensures
            final(self)@ == (ConversationView { messages: Seq::empty(), ..old(self)@ }),
    {
        self.messages = Vec::new();
        proof {
            assert(messages_view(self.messages@) =~= Seq::empty());
        }
    }

    /// Whether a turn is in flight.
    pub fn is_busy(&self) -> (r: bool)
        ensures
            r == self@.busy,
    {
        self.busy
    }

    /// Claim the single turn slot: `true` when it was free (the caller then
    /// runs the turn and releases it), `false` when a turn is already running.
    pub fn try_claim_turn(&mut self) -> (r: bool)
        ensures
            (r, final(self)@) == claim_outcome(old(self)@),
    {
        let free = !self.busy;
        self.busy = true;
        free
    }

    /// Release the turn slot when a turn ends, however it ends.
    pub fn release_turn(&mut self)
        ensures
            final(self)@ == (ConversationView { busy: false, ..old(self)@ }),
    {
        self.busy = false;
    }

    /// Mark the start of a new turn: a Stop pressed for an earlier turn can
    /// never suppress this one.
    pub fn begin_turn(&mut self)
        ensures
            final(self)@ == (ConversationView { cancelled: false, ..old(self)@ }),
    {
        self.cancelled = false;
    }

    /// Whether the current turn was stopped by the user.
    pub fn is_cancelled(&self) -> (r: bool)
        ensures
            r == self@.cancelled,
    {
        self.cancelled
    }

    /// Stop the current turn, if any; harmless when idle. The flag stays set
    /// until the next turn begins.
    pub fn request_cancel(&mut self)
        ensures
            final(self)@ == (ConversationView { cancelled: true, ..old(self)@ }),
    {
        self.cancelled = true;
    }

    /// The history row the conversation is saved to, if any.
    pub fn session_id(&self) -> (r: Option<i64>)
        ensures
            r == self@.session_id,
    {
        self.session_id
    }

    /// Point later saves at history row `id` (after it was created or
    /// updated).
    pub fn remember_session(&mut self, id: i64)
        ensures
            final(self)@ == (ConversationView { session_id: Some(id), ..old(self)@ }),
    {
        self.session_id = Some(id);
    }

    /// Forget the history row, so the next turn starts a new one, and the
    /// rolling summary with it (the conversation was cleared).
    pub fn reset_session(&mut self)
        ensures
            final(self)@ == summary_cleared(ConversationView { session_id: None, ..old(self)@ }),
    {
        self.session_id = None;
        self.reset_rolling_summary();
    }

    /// The rolling summary and how many leading messages it stands for.
    pub fn rolling_summary(&self) -> (r: (String, usize))
        ensures
            r.0@ == self@.summary,
            r.1 == self@.summarized_len,
    {
        (self.summary.clone(), self.summarized_len)
    }

    /// Keep `summary` as the rolling summary of the first `upto` messages.
    pub fn store_rolling_summary(&mut self, summary: String, upto: usize)
        ensures
            final(self)@ == (ConversationView {
                summary: summary@,
                summarized_len: upto as nat,
                ..old(self)@
            }),
    {
        self.summary = summary;
        self.summarized_len = upto;
    }

    /// Claim the single background-summarization slot: `true` when it was
    /// free (the caller then ends the pass with `end_summarizing`), `false`
    /// when a pass is already running.
    pub fn begin_summarizing(&mut self) -> (r: bool)
        ensures
            (r, final(self)@) == summarizing_outcome(old(self)@),
    {
        let free = !self.summarizing;
        self.summarizing = true;
        free
    }

    /// Release the background-summarization slot.
    pub fn end_summarizing(&mut self)
        ensures
            final(self)@ == (ConversationView { summarizing: false, ..old(self)@ }),
    {
        self.summarizing = false;
    }

    /// Forget the rolling summary (the conversation was cleared or another
    /// one loaded).
    pub fn reset_rolling_summary(&mut self)
        ensures
            final(self)@ == summary_cleared(old(self)@),
    {
        self.summary = String::new();
        self.summarized_len = 0;
        self.summarizing = false;
    }

    /// The conversation for distillation into memory, when it grew since the
    /// last pass and holds at least two user turns; its length is then
    /// marked as distilled, so closing the panel again on the same content
    /// does nothing.
    pub fn take_distillable(&mut self) -> (r: Option<Vec<ChatMessage>>)
        ensures
            ({
                let (taken, after) = distill_outcome(old(self)@);
                &&& final(self)@ == after
                &&& match r {
                    Some(v) => taken == Some(messages_view(v@)),
                    None => taken is None,
                }
            }),
    {
        let len = self.messages.len();
        let turns = count_user_turns(self.messages.as_slice());
        if len > self.last_distilled_len && turns >= 2 {
            self.last_distilled_len = len;
            let copy = copy_messages(self.messages.as_slice(), 0, len);
            proof {
                assert(messages_view(self.messages@).subrange(0, len as int) =~= messages_view(
                    self.messages@,
                ));
            }
            Some(copy)
        } else {
            None
        }
    }

    /// Take back the last exchange to ask it again: drop the assistant's
    /// answer, if the newest message is one, then the user's message before
    /// it, whose text (without attachment markers) is given back. Nothing
    /// more is dropped when the newest message is not the user's.
    pub fn take_last_exchange(&mut self) -> (r: Option<String>)
        ensures
            ({
                let (text, after) = last_exchange_outcome(old(self)@);
                &&& final(self)@ == after
                &&& match r {
                    Some(t) => text == Some(t@),
                    None => text is None,
                }
            }),
    {
        let ghost before = messages_view(self.messages@);
        let n = self.messages.len();
        if n > 0 && same_text(self.messages[n - 1].role.as_str(), "assistant") {
            self.messages.pop();
            proof {
                assert(messages_view(self.messages@) =~= before.drop_last());
            }
        }
        let ghost mid = messages_view(self.messages@);
        let m = self.messages.len();
        if m > 0 && same_text(self.messages[m - 1].role.as_str(), "user") {
            let text = strip_markers(self.messages[m - 1].content.as_str());
            self.messages.pop();
            proof {
                assert(messages_view(self.messages@) =~= mid.drop_last());
            }
            Some(text)
        } else {
            None
        }
    }

    /// Claim the turn slot for summarizing the conversation: refused while a
    /// turn runs, and for an empty conversation (the slot then stays free).
    pub fn try_claim_summarize(&mut self) -> (r: bool)
        ensures
            (r, final(self)@) == (if old(self)@.busy || old(self)@.messages.len() == 0 {
                (false, old(self)@)
            } else {
                claim_outcome(old(self)@)
            }),
    {
        if self.busy || self.messages.len() == 0 {
            return false;
        }
        self.busy = true;
        true
    }

    /// Replace the whole conversation by the summary a summarizing turn
    /// wrote, trimmed, as one message of the assistant; a blank summary
    /// changes nothing. Gives whether the conversation was replaced.
    pub fn replace_with_summary(&mut self, text: &str) -> (r: bool)
        ensures
            r == (trim_ws(text@).len() > 0),
            final(self)@ == if r {
                ConversationView { messages: seq![("assistant"@, trim_ws(text@))], ..old(self)@ }
            } else {
                old(self)@
            },
    {
        let t = trim(text);
        if t.as_str().is_empty() {
            return false;
        }
        let mut v: Vec<ChatMessage> = Vec::new();
        v.push(ChatMessage { role: "assistant".to_string(), content: t });
        self.messages = v;
        proof {
            assert(messages_view(self.messages@) =~= seq![("assistant"@, trim_ws(text@))]);
        }
        true
    }

    /// Keep what a background pass wrote as the rolling summary of the
    /// messages before `to` (at most all of them): trimmed, and only when it
    /// is not blank. Gives whether it was kept.
    pub fn fold_into_summary(&mut self, text: &str, to: usize) -> (r: bool)
        ensures
            r == (trim_ws(text@).len() > 0),
            final(self)@ == if r {
                ConversationView {
                    summary: trim_ws(text@),
                    summarized_len: if (to as nat) < old(self)@.messages.len() {
                        to as nat
                    } else {
                        old(self)@.messages.len()
                    },
                    ..old(self)@
                }
            } else {
                old(self)@
            },
    {
        let t = trim(text);
        if t.as_str().is_empty() {
            return false;
        }
        let len = self.messages.len();
        let upto = if to < len {
            to
        } else {
            len
        };
        self.store_rolling_summary(t, upto);
        true
    }

    /// Start a new exchange from an empty conversation: what is worth
    /// distilling is taken first (so what the last exchange taught is not
    /// lost), then the conversation is emptied and detached from its history
    /// row. Gives whether anything was reset, and the messages to distill.
    pub fn reset_for_new_exchange(&mut self) -> (r: (bool, Option<Vec<ChatMessage>>))
        ensures
            ({
                let (reset, taken, after) = new_exchange_outcome(old(self)@);
                &&& final(self)@ == after
                &&& r.0 == reset
                &&& match r.1 {
                    Some(v) => taken == Some(messages_view(v@)),
                    None => taken is None,
                }
            }),
    {
        let snapshot = self.take_distillable();
        if self.messages.len() == 0 && snapshot.is_none() {
            return (false, snapshot);
        }
        self.clear_messages();
        self.reset_session();
        self.reset_distilled_marker();
        (true, snapshot)
    }

    /// The conversation to distill into memory now that it has ended (the
    /// panel closed, the conversation was cleared, a call hung up): nothing
    /// while memory is off or the chat is incognito, else as
    /// `take_distillable`.
    pub fn distill_if_ended(&mut self, memory_enabled: bool, incognito: bool) -> (r: Option<
        Vec<ChatMessage>,
    >)
        ensures
            !memory_enabled || incognito ==> r is None && final(self)@ == old(self)@,
            memory_enabled && !incognito ==> ({
                let (taken, after) = distill_outcome(old(self)@);
                &&& final(self)@ == after
                &&& match r {
                    Some(v) => taken == Some(messages_view(v@)),
                    None => taken is None,
                }
            }),
    {
        if !memory_enabled || incognito {
            return None;
        }
        self.take_distillable()
    }

    /// How to save the conversation now: nothing when it is empty, else the
    /// row it is saved to is updated, or a row is created when there is none
    /// (the row that is created or updated is then remembered with
    /// `remember_session`; a row found missing on update is created anew).
    pub fn save_step(&self) -> (r: SaveStep)
        ensures
            r == if self@.messages.len() == 0 {
                SaveStep::Skip
            } else {
                match self@.session_id {
                    Some(id) => SaveStep::Update(id),
                    None => SaveStep::Create,
                }
            },
    {
        if self.messages.len() == 0 {
            SaveStep::Skip
        } else {
            match self.session_id {
                Some(id) => SaveStep::Update(id),
                None => SaveStep::Create,
            }
        }
    }

    /// Clear the conversation: no message, no history row (the next turn
    /// starts a new one rather than appending to the row just cleared), no
    /// rolling summary.
    pub fn clear_conversation(&mut self)
        ensures
            final(self)@ == summary_cleared(
                ConversationView { messages: Seq::empty(), session_id: None, ..old(self)@ },
            ),
    {
        self.clear_messages();
        self.reset_session();
    }

    /// Mark the whole conversation as distilled (after a pass the user asked
    /// for), so a later close does not repeat it.
    pub fn mark_distilled_current(&mut self)
        ensures
            final(self)@ == (ConversationView {
                distilled_len: old(self)@.messages.len(),
                ..old(self)@
            }),
    {
        self.last_distilled_len = self.messages.len();
    }

    /// Forget how much was distilled (the conversation was cleared or another
    /// one loaded).
    pub fn reset_distilled_marker(&mut self)
        ensures
            final(self)@ == (ConversationView { distilled_len: 0, ..old(self)@ }),
    {
        self.last_distilled_len = 0;
    }

    /// Resume a conversation saved as history row `id`: its messages replace
    /// the current ones, later saves update that row, and the whole of it is
    /// sent verbatim until it is summarized again.
    pub fn load_session(&mut self, id: i64, messages: Vec<ChatMessage>)
        ensures
            final(self)@ == summary_cleared(
                ConversationView {
                    messages: messages_view(messages@),
                    session_id: Some(id),
                    ..old(self)@
                },
            ),
    {
        self.messages = messages;
        self.session_id = Some(id);
        self.reset_rolling_summary();
    }

    /// Continue from a saved conversation as a new branch: its messages are
    /// adopted but no history row is, so the next turn saves a new row and
    /// the conversation it came from stays exactly as it was.
    pub fn load_branch(&mut self, messages: Vec<ChatMessage>)
        ensures
            final(self)@ == summary_cleared(
                ConversationView {
                    messages: messages_view(messages@),
                    session_id: None,
                    ..old(self)@
                },
            ),
            final(self)@.session_id is None,
    {
        self.messages = messages;
        self.session_id = None;
        self.reset_rolling_summary();
    }

    /// Forget the history row only when it is `id` (that row was deleted
    /// while the conversation is still open), so the next turn saves anew.
    pub fn forget_session_if(&mut self, id: i64)
        ensures
            final(self)@ == (ConversationView {
                session_id: if old(self)@.session_id == Some(id) {
                    None
                } else {
                    old(self)@.session_id
                },
                ..old(self)@
            }),
    {
        if self.session_id == Some(id) {
            self.session_id = None;
        }
    }
}

/// Only one turn runs at a time: once the slot is claimed, a second claim
/// (a double-fired hotkey) is refused until the turn releases it, after which
/// a claim succeeds again.
pub proof fn lemma_one_turn_at_a_time(s: ConversationView)
    ensures
        !claim_outcome(claim_outcome(s).1).0,
        claim_outcome(ConversationView { busy: false, ..claim_outcome(s).1 }).0,
{
}

/// Only one background summarization runs at a time: once the slot is
/// claimed, a second claim is refused until the pass ends.
pub proof fn lemma_one_summarizing_pass_at_a_time(s: ConversationView)
    ensures
        !summarizing_outcome(summarizing_outcome(s).1).0,
        summarizing_outcome(ConversationView { summarizing: false, ..summarizing_outcome(s).1 }).0,
{
}

/// A conversation that has not changed is distilled at most once: taking it
/// a second time gives nothing.
pub proof fn lemma_unchanged_conversation_is_distilled_once(s: ConversationView)
    ensures
        distill_outcome(distill_outcome(s).1).0 is None,
{
}


/// The length of a text in bytes, as UTF-8 (`str::len`).
pub open spec fn byte_len(s: Seq<char>) -> int {
    (encode_utf8(s).len() as usize) as int
}

/// How many messages a request takes back from message `end - 1`: at most
/// `take`, adding up their bytes on the way; the walk stops before a message
/// that brings the total over `max_chars`, except that the newest one is
/// always kept. `k` messages with `chars` bytes are taken so far.
pub open spec fn kept_count(
    m: Seq<(Seq<char>, Seq<char>)>,
    end: int,
    take: nat,
    max_chars: int,
    k: nat,
    chars: int,
) -> nat
    decreases take - k,
{
    if k >= take {
        k
    } else {
        let c = chars + byte_len(m[end - 1 - k].1);
        if c > max_chars && k > 0 {
            k
        } else {
            kept_count(m, end, take, max_chars, k + 1, c)
        }
    }
}

/// Where the history a request may send ends: before the message of the
/// current turn when that is already recorded.
pub open spec fn window_end(len: nat, skip_current: bool) -> nat {
    if skip_current && len >= 1 {
        (len - 1) as nat
    } else if skip_current {
        0
    } else {
        len
    }
}

/// How many messages a request may send at most: the ones not yet folded into
/// the rolling summary (without the current one), and no more than
/// `max_messages`.
pub open spec fn window_take(
    len: nat,
    summarized_len: nat,
    skip_current: bool,
    max_messages: nat,
) -> nat {
    let s = if summarized_len < len {
        summarized_len
    } else {
        len
    };
    let skip: nat = if skip_current {
        1
    } else {
        0
    };
    let unsummarized: nat = if len - s >= skip {
        (len - s - skip) as nat
    } else {
        0
    };
    if max_messages < unsummarized {
        max_messages
    } else {
        unsummarized
    }
}

/// The messages a request sends as history, oldest first: the newest ones
/// before `window_end`, as many as `window_take` allows, as long as their
/// bytes stay within `max_chars` (the newest one is always sent).
pub open spec fn history_window_spec(
    m: Seq<(Seq<char>, Seq<char>)>,
    summarized_len: nat,
    skip_current: bool,
    max_messages: nat,
    max_chars: nat,
) -> Seq<(Seq<char>, Seq<char>)> {
    let end = window_end(m.len(), skip_current) as int;
    let take = window_take(m.len(), summarized_len, skip_current, max_messages);
    let n = kept_count(m, end, take, max_chars as int, 0, 0);
    m.subrange(end - n, end)
}

/// Every walk back keeps at most the messages it may take.
pub proof fn lemma_kept_count_bounded(
    m: Seq<(Seq<char>, Seq<char>)>,
    end: int,
    take: nat,
    max_chars: int,
    k: nat,
    chars: int,
)
    requires
        k <= take,
    ensures
        k <= kept_count(m, end, take, max_chars, k, chars) <= take,
    decreases take - k,
{
    if k < take {
        let c = chars + byte_len(m[end - 1 - k].1);
        if !(c > max_chars && k > 0) {
            lemma_kept_count_bounded(m, end, take, max_chars, k + 1, c);
        }
    }
}

/// The history a request sends, oldest first: walking back from the newest
/// message before the current one (when `skip_current`), over the messages
/// not folded into the rolling summary, at most `max_messages` of them, and
/// stopping before the one whose bytes would bring the total over
/// `max_chars` (the newest one is always sent).
pub fn history_window(
    history: &[ChatMessage],
    summarized_len: usize,
    skip_current: bool,
    max_messages: usize,
    max_chars: usize,
) -> (r: Vec<ChatMessage>)
    ensures
        messages_view(r@) == history_window_spec(
            messages_view(history@),
            summarized_len as nat,
            skip_current,
            max_messages as nat,
            max_chars as nat,
        ),
{
    let ghost m = messages_view(history@);
    let len = history.len();
    let s = if summarized_len < len {
        summarized_len
    } else {
        len
    };
    let skip: usize = if skip_current {
        1
    } else {
        0
    };
    let unsummarized = if len - s >= skip {
        len - s - skip
    } else {
        0
    };
    let take = if max_messages < unsummarized {
        max_messages
    } else {
        unsummarized
    };
    let end = if len >= skip {
        len - skip
    } else {
        0
    };
    assert(end == window_end(len as nat, skip_current));
    assert(take == window_take(len as nat, summarized_len as nat, skip_current, max_messages as nat));
    let ghost total = kept_count(m, end as int, take as nat, max_chars as int, 0, 0);
    let mut k: usize = 0;
    let mut chars: u128 = 0;
    while k < take
        invariant
            take <= end <= len == history@.len(),
            m == messages_view(history@),
            k <= take,
            chars <= usize::MAX,
            k == 0 ==> chars == 0,
            total == kept_count(m, end as int, take as nat, max_chars as int, k as nat, chars as int),
        ensures
            total == k,
        decreases take - k,
    {
        let b = history[end - 1 - k].content.as_str().len();
        assert(b as int == byte_len(m[end - 1 - k].1));
        let c = chars + b as u128;
        if c > max_chars as u128 && k > 0 {
            break;
        }
        chars = c;
        k += 1;
    }
    proof {
        lemma_kept_count_bounded(m, end as int, take as nat, max_chars as int, 0, 0);
    }
    copy_messages(history, end - k, end)
}

/// How many messages, and how many bytes of them, a turn may send as
/// history. A provider that needs a small request body gets a byte cap, and
/// a tighter one with at most four messages when a picture rides along;
/// others get exactly the number of messages the setting asks for.
pub fn history_limits(needs_small_body: bool, has_visual: bool, max_history_setting: usize) -> (r: (
    usize,
    usize,
))
    ensures
        r == if needs_small_body && has_visual {
            (if max_history_setting < 4 {
                max_history_setting
            } else {
                4
            }, 6_000usize)
        } else if needs_small_body {
            (max_history_setting, 24_000usize)
        } else {
            (max_history_setting, usize::MAX)
        },
{
    if needs_small_body {
        if has_visual {
            (if max_history_setting < 4 {
                max_history_setting
            } else {
                4
            }, 6_000)
        } else {
            (max_history_setting, 24_000)
        }
    } else {
        (max_history_setting, usize::MAX)
    }
}

/// How many messages, and how many bytes of them, a summarizing turn sends
/// as history: at least eight messages, within 24,000 bytes.
pub fn summary_turn_limits(max_history_setting: usize) -> (r: (usize, usize))
    ensures
        r == (if max_history_setting < 8 {
            8
        } else {
            max_history_setting
        }, 24_000usize),
{
    (if max_history_setting < 8 {
        8
    } else {
        max_history_setting
    }, 24_000)
}

/// Whether a provider needs a small request body: the built-in engine, an
/// Azure gateway, or a server on this machine.
pub fn needs_small_body(provider_id: &str, base_url: &str) -> (r: bool)
    ensures
        r == (provider_id@ == "builtin"@ || has_substring(ascii_lower(base_url@), "azure"@)
            || has_substring(ascii_lower(base_url@), "127.0.0.1"@) || has_substring(
            ascii_lower(base_url@),
            "localhost"@,
        )),
{
    let url = to_ascii_lowercase(base_url);
    same_text(provider_id, "builtin") || str_contains(url.as_str(), "azure") || str_contains(
        url.as_str(),
        "127.0.0.1",
    ) || str_contains(url.as_str(), "localhost")
}

/// The words that introduce the rolling summary to the model.
pub const SUMMARY_NOTE_PREFIX: &'static str =
    "Summary of the earlier part of this conversation (older messages, condensed for context):\n";

/// The context note that carries the rolling summary into a request: none
/// when the summary is blank, else the introduction and the trimmed summary.
pub fn summary_note(summary: &str) -> (r: Option<String>)
    ensures
        match r {
            Some(t) => trim_ws(summary@).len() > 0 && t@ == SUMMARY_NOTE_PREFIX@ + trim_ws(
                summary@,
            ),
            None => trim_ws(summary@).len() == 0,
        },
{
    let t = trim(summary);
    if t.as_str().is_empty() {
        None
    } else {
        Some(concat(SUMMARY_NOTE_PREFIX, t.as_str()))
    }
}

/// How many of the newest messages stay verbatim when older ones are folded
/// into the rolling summary.
pub const AUTO_SUMMARIZE_KEEP_RECENT: usize = 6;

/// The history window that auto-summarization keeps to: the setting, but at
/// least four messages.
pub open spec fn summarize_window(max_history_setting: nat) -> nat {
    if max_history_setting < 4 {
        4
    } else {
        max_history_setting
    }
}

/// How many of the newest messages stay verbatim after a fold: six, but no
/// more than the window.
pub open spec fn verbatim_keep(max_history_setting: nat) -> nat {
    let window = summarize_window(max_history_setting);
    if 6 < window {
        6
    } else {
        window
    }
}

/// The range of messages to fold into the rolling summary after a turn:
/// none while the messages not yet summarized fit the history window
/// (`max_history_setting`, at least four); else from where the summary ends
/// up to the newest `AUTO_SUMMARIZE_KEEP_RECENT` (at most the window), when
/// that range is not empty.
pub open spec fn auto_summarize_spec(len: nat, summarized_len: nat, max_history_setting: nat) -> Option<
    (nat, nat),
> {
    let window = summarize_window(max_history_setting);
    let keep = verbatim_keep(max_history_setting);
    let s = if summarized_len < len {
        summarized_len
    } else {
        len
    };
    let fold: nat = if len >= keep {
        (len - keep) as nat
    } else {
        0
    };
    if len - s <= window {
        None
    } else if fold <= s {
        None
    } else {
        Some((s, fold))
    }
}

/// The range of messages to fold into the rolling summary after a turn, when
/// the conversation has outgrown the history window. What stays verbatim
/// after the fold is the newest messages, and they fit the window, so no
/// message is dropped from the request without being summarized.
pub fn auto_summarize_range(len: usize, summarized_len: usize, max_history_setting: usize) -> (r:
    Option<(usize, usize)>)
    ensures
        match r {
            Some((from, to)) => auto_summarize_spec(
                len as nat,
                summarized_len as nat,
                max_history_setting as nat,
            ) == Some((from as nat, to as nat)) && from < to <= len && len - to == verbatim_keep(max_history_setting as nat)
                && verbatim_keep(max_history_setting as nat) <= summarize_window(
                max_history_setting as nat,
            ),
            None => auto_summarize_spec(
                len as nat,
                summarized_len as nat,
                max_history_setting as nat,
            ) is None,
        },
{
    let window = if max_history_setting < 4 {
        4
    } else {
        max_history_setting
    };
    let keep = if AUTO_SUMMARIZE_KEEP_RECENT < window {
        AUTO_SUMMARIZE_KEEP_RECENT
    } else {
        window
    };
    let s = if summarized_len < len {
        summarized_len
    } else {
        len
    };
    if len - s <= window {
        return None;
    }
    let fold = if len >= keep {
        len - keep
    } else {
        0
    };
    if fold <= s {
        None
    } else {
        Some((s, fold))
    }
}


/// What the summarizing turn asks for, after the current date and time.
pub const SUMMARIZE_INSTRUCTION: &'static str = "Summarize our entire conversation so far into a compact brief that can replace it: preserve key facts, decisions, names, numbers, code worth keeping, and open questions. Be faithful and dense. Use Markdown.";

/// The system prompt of a background summarization pass.
pub const SUMMARIZER_SYSTEM_PROMPT: &'static str = "You compress conversations into faithful, dense briefs used as background context for an assistant. You never answer or continue the conversation; you only produce the summary.";

/// The first summary's instruction, before the excerpt.
pub const FIRST_SUMMARY_HEAD: &'static str = "Summarize the following conversation excerpt into a compact, faithful brief that can stand in for it as background context. Preserve key facts, decisions, names, numbers, code worth keeping, preferences, and open questions. Be dense and neutral, and write it as notes rather than a reply. Output only the summary.\n\n---\n";

/// A later summary's instruction, before the running summary.
pub const MERGE_SUMMARY_HEAD: &'static str = "Below is a running summary of the earlier part of a conversation, followed by newer messages. Produce an updated, compact summary that merges them into one brief usable as background context. Preserve key facts, decisions, names, numbers, code worth keeping, preferences, and open questions. Be dense and neutral, and write it as notes rather than a reply. Output only the updated summary.\n\nRunning summary so far:\n";

/// Between the running summary and the newer messages.
pub const MERGE_SUMMARY_MIDDLE: &'static str = "\n\n---\nNewer messages:\n";

/// The current local date and time, as a sentence for the model, written
/// with `DATETIME_LINE_FORMAT` ("Current date and time: Saturday, June 20,
/// 2026, 2:34 PM (UTC+05:30)."). The reading is whatever the clock gives;
/// the sentence has the form that `datetime_line` states.
pub fn current_datetime_line() -> (r: String)
    ensures
        datetime_line(r@),
{
    let (_, _, line) = local_now_texts(DATE_FORMAT, TIME_FORMAT, DATETIME_LINE_FORMAT);
    line
}

/// The request of the summarizing turn: the current date and time (see
/// `current_datetime_line`), a blank line, and `SUMMARIZE_INSTRUCTION`.
pub fn summarize_request_text() -> (r: String)
    ensures
        exists|line: Seq<char>|
            #![trigger datetime_line(line)]
            datetime_line(line) && r@ == line + "\n\n"@ + SUMMARIZE_INSTRUCTION@,
{
    let line = current_datetime_line();
    let r = concat(concat(line.as_str(), "\n\n").as_str(), SUMMARIZE_INSTRUCTION);
    assert(r@ == line@ + "\n\n"@ + SUMMARIZE_INSTRUCTION@);
    r
}

/// Who wrote a message, as an excerpt names them.
pub open spec fn speaker(role: Seq<char>) -> Seq<char> {
    if role == "user"@ {
        "User"@
    } else {
        "Assistant"@
    }
}

/// Messages written out for a summary: each as its writer, a colon, its
/// trimmed content and a blank line.
pub open spec fn excerpt_spec(m: Seq<(Seq<char>, Seq<char>)>) -> Seq<char>
    decreases m.len(),
{
    if m.len() == 0 {
        Seq::empty()
    } else {
        excerpt_spec(m.drop_last()) + speaker(m.last().0) + ": "@ + trim_ws(m.last().1) + "\n\n"@
    }
}

/// Messages `from..to` written out for a summary.
pub fn summary_excerpt(history: &[ChatMessage], from: usize, to: usize) -> (r: String)
    requires
        from <= to <= history@.len(),
    ensures
        r@ == excerpt_spec(messages_view(history@).subrange(from as int, to as int)),
{
    let ghost m = messages_view(history@);
    let mut out = String::new();
    let mut i: usize = from;
    while i < to
        invariant
            from <= i <= to <= history@.len(),
            m == messages_view(history@),
            out@ == excerpt_spec(m.subrange(from as int, i as int)),
        decreases to - i,
    {
        proof {
            assert(m.subrange(from as int, i + 1).drop_last() =~= m.subrange(from as int, i as int));
        }
        let who = if same_text(history[i].role.as_str(), "user") {
            "User"
        } else {
            "Assistant"
        };
        let content = trim(history[i].content.as_str());
        let line = concat(concat(concat(who, ": ").as_str(), content.as_str()).as_str(), "\n\n");
        let next = concat(out.as_str(), line.as_str());
        proof {
            assert(next@ =~= out@ + speaker(m[i as int].0) + ": "@ + trim_ws(m[i as int].1) + "\n\n"@);
        }
        out = next;
        i += 1;
    }
    out
}

/// The instruction of a background pass: the first summary of the excerpt,
/// or, when a running summary exists, a merge of it with the excerpt.
pub open spec fn auto_summary_instruction_spec(existing: Seq<char>, excerpt: Seq<char>) -> Seq<
    char,
> {
    if trim_ws(existing).len() == 0 {
        FIRST_SUMMARY_HEAD@ + trim_ws(excerpt)
    } else {
        MERGE_SUMMARY_HEAD@ + trim_ws(existing) + MERGE_SUMMARY_MIDDLE@ + trim_ws(excerpt)
    }
}

/// The instruction of a background pass that folds messages `from..to` into
/// the running summary `existing`: `None` when the range is empty or out of
/// the conversation.
pub fn auto_summary_request(existing: &str, history: &[ChatMessage], from: usize, to: usize) -> (r:
    Option<String>)
    ensures
        match r {
            Some(t) => from < to <= history@.len() && t@ == auto_summary_instruction_spec(
                existing@,
                excerpt_spec(messages_view(history@).subrange(from as int, to as int)),
            ),
            None => !(from < to <= history@.len()),
        },
{
    if from >= to || to > history.len() {
        return None;
    }
    let excerpt = summary_excerpt(history, from, to);
    let ex = trim(excerpt.as_str());
    let running = trim(existing);
    if running.as_str().is_empty() {
        Some(concat(FIRST_SUMMARY_HEAD, ex.as_str()))
    } else {
        Some(
            concat(
                concat(concat(MERGE_SUMMARY_HEAD, running.as_str()).as_str(), MERGE_SUMMARY_MIDDLE).as_str(),
                ex.as_str(),
            ),
        )
    }
}

} // verus!
