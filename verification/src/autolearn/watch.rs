//! Watching the field that was just dictated into, so a correction can be
//! noticed.
//!
//! The application reads the text of one control: the one that had keyboard
//! focus when the transcript was pasted into it, a handful of times over the
//! following minute, and then stops. This module holds the decisions of that
//! watch: whether a field holds the transcript at all, when to read it again,
//! and when to stop.

use vstd::prelude::*;
use crate::platform::Platform;
use crate::text::{
    char_is_alphanumeric, chars_of, has_substring, lowercase, split_whitespace, string_from_chars,
    to_lowercase, trim, trim_by, trim_chars, trim_ws, views, words, contains_chars, CharClass,
    char_is_whitespace, is_ascii_text, lead, lemma_lead_facts, lemma_split_state_len,
    lemma_trail_bounded, occurs_at, split_state, trim_start_by,
};

verus! {

/// How long after a paste to keep watching, in seconds.
pub const WATCH_FOR_SECS: u64 = 60;

/// How often to re-read the field, in seconds.
pub const POLL_INTERVAL_SECS: u64 = 2;

/// How long an idle watcher waits for the next message, in seconds.
pub const IDLE_WAIT_SECS: u64 = 3600;

/// Longest text read out of a field, in characters.
pub const MAX_TEXT_LEN: usize = 20000;

/// Words shorter than this are in every text and prove nothing.
pub const MIN_ANCHOR_LEN: usize = 4;

/// Whether the field just dictated into can be read on this platform: only
/// Windows has a reader.
pub fn supported(platform: Platform) -> (r: bool)
    ensures
        r == (platform == Platform::Windows),
{
    platform == Platform::Windows
}

/// The form of a transcript word that is looked for in the field: without
/// the non-alphanumeric characters around it, lowercased.
pub open spec fn anchor_of(w: Seq<char>) -> Seq<char> {
    lowercase(trim_by(w, CharClass::NonAlphanumeric))
}

/// The anchors of the transcript's words: each word of at least
/// `MIN_ANCHOR_LEN` characters, as `anchor_of` gives it, unless that is empty.
pub open spec fn anchors(ws: Seq<Seq<char>>) -> Seq<Seq<char>>
    decreases ws.len(),
{
    if ws.len() == 0 {
        Seq::empty()
    } else if ws.last().len() >= MIN_ANCHOR_LEN && anchor_of(ws.last()).len() > 0 {
        anchors(ws.drop_last()).push(anchor_of(ws.last()))
    } else {
        anchors(ws.drop_last())
    }
}

/// How many of the anchors occur in `text`.
pub open spec fn found_in(anchors: Seq<Seq<char>>, text: Seq<char>) -> nat
    decreases anchors.len(),
{
    if anchors.len() == 0 {
        0
    } else {
        found_in(anchors.drop_last(), text) + if has_substring(text, anchors.last()) {
            1nat
        } else {
            0nat
        }
    }
}

/// Whether a field's contents plausibly contain the pasted transcript: at
/// least half of the transcript's anchors occur in the lowercased field, or,
/// when the transcript has no anchors, the whole trimmed transcript does.
pub open spec fn resembles_spec(field: Seq<char>, pasted: Seq<char>) -> bool {
    let lowered = lowercase(field);
    let a = anchors(words(pasted));
    if a.len() == 0 {
        has_substring(lowered, lowercase(trim_ws(pasted)))
    } else {
        found_in(a, lowered) * 2 >= a.len()
    }
}

/// Whether a field's contents plausibly contain the transcript that was
/// pasted into it.
///
/// An exact containment check would be too strict: the target may have
/// reformatted the paste, and a word may already have been corrected. So it
/// asks whether at least half of the transcript's longer words are present.
pub fn resembles(field: &str, pasted: &str) -> (r: bool)
    ensures
        r == resembles_spec(field@, pasted@),
{
    let lowered = chars_of(to_lowercase(field).as_str());
    let ws = split_whitespace(chars_of(pasted).as_slice());
    let ghost sw = views(ws@);
    let mut list: Vec<Vec<char>> = Vec::new();
    let mut i: usize = 0;
    while i < ws.len()
        invariant
            i <= ws@.len(),
            sw == views(ws@),
            views(list@) == anchors(sw.take(i as int)),
            list@.len() <= i,
        decreases ws.len() - i,
    {
        proof {
            assert(sw.take(i + 1).drop_last() =~= sw.take(i as int));
            assert(sw.take(i + 1).last() == ws@[i as int]@);
        }
        if ws[i].len() >= MIN_ANCHOR_LEN {
            let core = trim_chars(ws[i].as_slice(), CharClass::NonAlphanumeric);
            let anchor = chars_of(to_lowercase(string_from_chars(core.as_slice()).as_str()).as_str());
            if anchor.len() > 0 {
                let ghost before = views(list@);
                list.push(anchor);
                proof {
                    assert(views(list@) =~= before.push(anchor@));
                }
            }
        }
        i += 1;
    }
    proof {
        assert(sw.take(ws@.len() as int) =~= sw);
    }
    if list.len() == 0 {
        let whole = chars_of(to_lowercase(trim(pasted).as_str()).as_str());
        return contains_chars(lowered.as_slice(), whole.as_slice());
    }
    let ghost sl = views(list@);
    let mut found: usize = 0;
    let mut k: usize = 0;
    while k < list.len()
        invariant
            k <= list@.len(),
            sl == views(list@),
            found == found_in(sl.take(k as int), lowered@),
            found <= k,
        decreases list.len() - k,
    {
        proof {
            assert(sl.take(k + 1).drop_last() =~= sl.take(k as int));
            assert(sl.take(k + 1).last() == list@[k as int]@);
        }
        if contains_chars(lowered.as_slice(), list[k].as_slice()) {
            found += 1;
        }
        k += 1;
    }
    proof {
        assert(sl.take(list@.len() as int) =~= sl);
    }
    found as u128 * 2 >= list.len() as u128
}

/// At most the first `max_len` characters of `text`.
pub fn clip(text: &str, max_len: usize) -> (r: String)
    ensures
        r@ == if text@.len() <= max_len {
            text@
        } else {
            text@.take(max_len as int)
        },
{
    let c = chars_of(text);
    if c.len() <= max_len {
        return text.to_owned();
    }
    let mut out: Vec<char> = Vec::new();
    let mut i: usize = 0;
    while i < max_len
        invariant
            i <= max_len < c@.len(),
            out@ == c@.take(i as int),
        decreases max_len - i,
    {
        out.push(c[i]);
        proof {
            assert(c@.take(i + 1) =~= c@.take(i as int).push(c@[i as int]));
        }
        i += 1;
    }
    string_from_chars(out.as_slice())
}

/// The watch on the field a transcript was pasted into: the transcript, and
/// when the watch began (in milliseconds of a monotonic clock), or nothing.
pub struct FieldWatch {
    watching: Option<(String, u64)>,
}

impl View for FieldWatch {
    type V = Option<(Seq<char>, u64)>;

    closed spec fn view(&self) -> Option<(Seq<char>, u64)> {
        match self.watching {
            Some((p, t)) => Some((p@, t)),
            None => None,
        }
    }
}

/// Whether the watch that began at `started` has run its course at `now`.
pub open spec fn expired(started: u64, now: u64) -> bool {
    now >= started && now - started >= WATCH_FOR_SECS * 1000
}

impl FieldWatch {
    /// No watch.
    pub fn new() -> (r: Self)
        ensures
            r@ is None,
    {
        FieldWatch { watching: None }
    }

    /// Whether a field is being watched.
    pub fn is_watching(&self) -> (r: bool)
        ensures
            r == self@ is Some,
    {
        self.watching.is_some()
    }

    /// The transcript being watched for.
    pub fn pasted(&self) -> (r: Option<&String>)
        ensures
            match self@ {
                Some((p, _)) => r matches Some(s) && s@ == p,
                None => r is None,
            },
    {
        match &self.watching {
            Some((p, _)) => Some(p),
            None => None,
        }
    }

    /// How long to wait for the next message: the poll interval while
    /// watching; an hour while idle, so an idle watcher costs nothing.
    pub fn wait_secs(&self) -> (r: u64)
        ensures
            r == if self@ is Some {
                POLL_INTERVAL_SECS
            } else {
                IDLE_WAIT_SECS
            },
    {
        if self.watching.is_some() {
            POLL_INTERVAL_SECS
        } else {
            IDLE_WAIT_SECS
        }
    }

    /// Start watching for `pasted`, replacing any earlier watch. The field is
    /// watched only when its text could be read (`field`) and resembles the
    /// transcript; otherwise nothing is watched.
    pub fn begin(&mut self, pasted: String, field: Option<&str>, now: u64)
        ensures
            final(self)@ == match field {
                Some(text) => if resembles_spec(text@, pasted@) {
                    Some((pasted@, now))
                } else {
                    None
                },
                None => None,
            },
    {
        self.watching = match field {
            Some(text) => if resembles(text, pasted.as_str()) {
                Some((pasted, now))
            } else {
                None
            },
            None => None,
        };
    }

    /// Stop watching without starting another watch.
    pub fn cancel(&mut self)
        ensures
            final(self)@ is None,
    {
        self.watching = None;
    }

    /// A poll tick at `now`: whether to read the field. An idle watch reads
    /// nothing; a watch whose window has elapsed ends and reads nothing.
    pub fn tick(&mut self, now: u64) -> (r: bool)
        ensures
            match old(self)@ {
                None => !r && final(self)@ is None,
                Some((p, started)) => if expired(started, now) {
                    !r && final(self)@ is None
                } else {
                    r && final(self)@ == old(self)@
                },
            },
    {
        let started = match &self.watching {
            None => {
                return false;
            },
            Some((_, started)) => *started,
        };
        if now >= started && now - started >= WATCH_FOR_SECS * 1000 {
            self.watching = None;
            return false;
        }
        true
    }

    /// What a read gave: whether the control still had text, and whether
    /// that text satisfied the caller. The watch ends when the control is
    /// gone or the caller is satisfied, and goes on otherwise.
    pub fn after_read(&mut self, text_present: bool, satisfied: bool)
        ensures
            final(self)@ == if !text_present || satisfied {
                None
            } else {
                old(self)@
            },
    {
        if !text_present || satisfied {
            self.watching = None;
        }
    }
}

/// What occurs in a prefix of a text occurs in the text.
proof fn lemma_occurs_in_longer(p: Seq<char>, s: Seq<char>, x: Seq<char>, k: int)
    requires
        occurs_at(p, x, k),
        p.len() <= s.len(),
        s.take(p.len() as int) == p,
    ensures
        occurs_at(s, x, k),
{
    assert(s.subrange(k, k + x.len()) =~= p.subrange(k, k + x.len()));
}

/// Every word read so far occurs in the text, and the word being read ends
/// it.
proof fn lemma_split_state_occurs(s: Seq<char>)
    ensures
        forall|i: int|
            0 <= i < split_state(s).0.len() ==> has_substring(s, #[trigger] split_state(s).0[i]),
        occurs_at(s, split_state(s).1, s.len() - split_state(s).1.len()),
    decreases s.len(),
{
    if s.len() == 0 {
        assert(s.subrange(0, 0) =~= split_state(s).1);
    } else {
        let p = s.drop_last();
        lemma_split_state_occurs(p);
        lemma_split_state_len(p);
        let (d, cur) = split_state(p);
        assert(s.take(p.len() as int) =~= p);
        assert forall|i: int| 0 <= i < d.len() implies has_substring(s, #[trigger] d[i]) by {
            let k = choose|k: int| occurs_at(p, d[i], k);
            lemma_occurs_in_longer(p, s, d[i], k);
        }
        lemma_occurs_in_longer(p, s, cur, p.len() - cur.len());
        let (d2, c2) = split_state(s);
        assert forall|i: int| 0 <= i < d2.len() implies has_substring(s, #[trigger] d2[i]) by {
            if i < d.len() {
                assert(d2[i] == d[i]);
            } else {
                assert(d2[i] == cur);
            }
        }
        if char_is_whitespace(s.last()) {
            assert(s.subrange(s.len() as int, s.len() as int) =~= c2);
        } else {
            assert(s.subrange(s.len() - c2.len(), s.len() as int) =~= c2);
        }
    }
}

/// Every word of a text occurs in it.
proof fn lemma_words_occur(s: Seq<char>)
    ensures
        forall|i: int| 0 <= i < words(s).len() ==> has_substring(s, #[trigger] words(s)[i]),
{
    lemma_split_state_occurs(s);
    let (d, cur) = split_state(s);
    assert forall|i: int| 0 <= i < words(s).len() implies has_substring(s, #[trigger] words(s)[i]) by {
        if i < d.len() {
            assert(words(s)[i] == d[i]);
        } else {
            assert(words(s)[i] == cur);
        }
    }
}

/// Occurring in something that occurs in a text is occurring in the text.
proof fn lemma_occurs_trans(a: Seq<char>, b: Seq<char>, c: Seq<char>, i: int, j: int)
    requires
        occurs_at(a, b, i),
        occurs_at(b, c, j),
    ensures
        occurs_at(a, c, i + j),
{
    assert(a.subrange(i + j, i + j + c.len()) =~= b.subrange(j, j + c.len()));
}

/// A text trimmed of a class of characters at both ends occurs in it.
proof fn lemma_trimmed_occurs(w: Seq<char>, k: CharClass)
    ensures
        occurs_at(w, trim_by(w, k), lead(w, k) as int),
{
    lemma_lead_facts(w, k);
    let front = trim_start_by(w, k);
    lemma_trail_bounded(front, k);
    assert(w.subrange(lead(w, k) as int, (lead(w, k) + trim_by(w, k).len()) as int) =~= trim_by(w, k));
}

/// What occurs in ASCII text is ASCII, and it occurs at the same place once
/// both are lowercased.
proof fn lemma_lowered_occurs(h: Seq<char>, n: Seq<char>, i: int)
    requires
        occurs_at(h, n, i),
        is_ascii_text(h),
    ensures
        is_ascii_text(n),
        occurs_at(lowercase(h), lowercase(n), i),
{
    assert forall|t: int| 0 <= t < n.len() implies (n[t] as int) < 128 by {
        assert(n[t] == h.subrange(i, i + n.len())[t]);
    }
    assert(lowercase(h).subrange(i, i + n.len()) =~= lowercase(n));
}

/// When every word's anchor occurs in the text, all anchors are found.
proof fn lemma_all_anchors_found(ws: Seq<Seq<char>>, text: Seq<char>)
    requires
        forall|j: int| 0 <= j < ws.len() ==> has_substring(text, anchor_of(#[trigger] ws[j])),
    ensures
        found_in(anchors(ws), text) == anchors(ws).len(),
    decreases ws.len(),
{
    if ws.len() > 0 {
        let p = ws.drop_last();
        assert forall|j: int| 0 <= j < p.len() implies has_substring(text, anchor_of(#[trigger] p[j])) by {
            assert(p[j] == ws[j]);
        }
        lemma_all_anchors_found(p, text);
        assert(has_substring(text, anchor_of(ws[ws.len() - 1])));
        let a = anchors(p);
        let b = a.push(anchor_of(ws.last()));
        assert(b.drop_last() =~= a);
    }
}

/// A field that holds the pasted transcript resembles it, whatever else it
/// holds: every anchor of the transcript, and the trimmed transcript itself,
/// occur in the lowercased field (for ASCII text, where lowercasing keeps
/// every character in its place).
pub proof fn lemma_field_holding_the_transcript_resembles_it(field: Seq<char>, pasted: Seq<char>)
    requires
        is_ascii_text(field),
        has_substring(field, pasted),
    ensures
        resembles_spec(field, pasted),
{
    let k = choose|k: int| occurs_at(field, pasted, k);
    let lowered = lowercase(field);
    let ws = words(pasted);
    lemma_words_occur(pasted);
    assert forall|j: int| 0 <= j < ws.len() implies has_substring(lowered, anchor_of(#[trigger] ws[j])) by {
        let w = ws[j];
        let m = choose|m: int| occurs_at(pasted, w, m);
        lemma_occurs_trans(field, pasted, w, k, m);
        lemma_trimmed_occurs(w, CharClass::NonAlphanumeric);
        let core = trim_by(w, CharClass::NonAlphanumeric);
        let at = lead(w, CharClass::NonAlphanumeric) as int;
        lemma_occurs_trans(field, w, core, k + m, at);
        lemma_lowered_occurs(field, core, k + m + at);
    }
    lemma_all_anchors_found(ws, lowered);
    lemma_trimmed_occurs(pasted, CharClass::Whitespace);
    lemma_occurs_trans(field, pasted, trim_ws(pasted), k, lead(pasted, CharClass::Whitespace) as int);
    lemma_lowered_occurs(field, trim_ws(pasted), k + lead(pasted, CharClass::Whitespace));
}

} // verus!
