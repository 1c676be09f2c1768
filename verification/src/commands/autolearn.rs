//! The auto-learn switch, the reviewable list of learned words, and the
//! status the interface shows.

use vstd::prelude::*;
use crate::autolearn::detect::string_views;
use crate::autolearn::learner::MAX_LEARNED_WORDS;
use crate::autolearn::watch::supported;
use crate::platform::Platform;
use crate::settings::AppSettings;
use crate::text::{
    eq_ignore_ascii_case, eq_ignoring_ascii_case, lowercase, to_lowercase, trim, trim_ws,
};

verus! {

/// Whether auto-learn can work here, whether it is on, and what it has
/// learned.
#[derive(Clone, Debug)]
pub struct AutoLearnStatus {
    /// False where the field just dictated into cannot be read.
    pub supported: bool,
    pub enabled: bool,
    /// Words learned so far, oldest first.
    pub learned: Vec<String>,
    pub max_learned: u32,
}

/// The auto-learn status for these settings on this platform.
pub fn auto_learn_status(settings: &AppSettings, platform: Platform) -> (r: AutoLearnStatus)
    ensures
        r.supported == (platform == Platform::Windows),
        r.enabled == settings.auto_learn_corrections,
        string_views(r.learned@) == string_views(settings.learned_words@),
        r.max_learned == MAX_LEARNED_WORDS,
{
    AutoLearnStatus {
        supported: supported(platform),
        enabled: settings.auto_learn_corrections,
        learned: settings.learned_words.clone(),
        max_learned: 200,
    }
}

/// The lowercase forms of some words.
pub open spec fn keys_of(s: Seq<Seq<char>>) -> Seq<Seq<char>> {
    s.map_values(|w: Seq<char>| lowercase(w))
}

/// The list the user asked for, cleaned: each entry trimmed, blank entries
/// dropped, and later entries equal to an earlier one apart from case
/// dropped, so the first spelling wins.
pub open spec fn dedupe_spec(words: Seq<Seq<char>>) -> Seq<Seq<char>>
    decreases words.len(),
{
    if words.len() == 0 {
        Seq::empty()
    } else {
        let prev = dedupe_spec(words.drop_last());
        let t = trim_ws(words.last());
        if t.len() == 0 || keys_of(prev).contains(lowercase(t)) {
            prev
        } else {
            prev.push(t)
        }
    }
}

/// Whether `w` is one of `list`, compared as strings.
fn contains_key(list: &Vec<String>, w: &String) -> (r: bool)
    ensures
        r == string_views(list@).contains(w@),
{
    let mut i: usize = 0;
    while i < list.len()
        invariant
            i <= list@.len(),
            forall|t: int| 0 <= t < i ==> string_views(list@)[t] != w@,
        decreases list.len() - i,
    {
        if list[i] == *w {
            assert(string_views(list@)[i as int] == w@);
            return true;
        }
        i += 1;
    }
    false
}

/// Trim, drop blanks, and remove duplicates ignoring case, keeping the first
/// appearance.
pub fn dedupe(words: Vec<String>) -> (r: Vec<String>)
    ensures
        string_views(r@) == dedupe_spec(string_views(words@)),
{
    let ghost ws = string_views(words@);
    let mut seen: Vec<String> = Vec::new();
    let mut out: Vec<String> = Vec::new();
    let mut i: usize = 0;
    while i < words.len()
        invariant
            i <= words@.len(),
            ws == string_views(words@),
            string_views(out@) == dedupe_spec(ws.take(i as int)),
            string_views(seen@) == keys_of(string_views(out@)),
        decreases words.len() - i,
    {
        proof {
            assert(ws.take(i + 1).drop_last() =~= ws.take(i as int));
            assert(ws.take(i + 1).last() == words@[i as int]@);
        }
        let trimmed = trim(words[i].as_str());
        if trimmed.unicode_len() > 0 {
            let key = to_lowercase(trimmed.as_str());
            if !contains_key(&seen, &key) {
                let ghost prev_out = string_views(out@);
                let ghost prev_seen = string_views(seen@);
                seen.push(key);
                out.push(trimmed);
                proof {
                    assert(string_views(out@) =~= prev_out.push(trim_ws(ws[i as int])));
                    assert(string_views(seen@) =~= prev_seen.push(lowercase(trim_ws(ws[i as int]))));
                    assert(keys_of(string_views(out@)) =~= keys_of(prev_out).push(
                        lowercase(trim_ws(ws[i as int])),
                    ));
                }
            }
        }
        i += 1;
    }
    proof {
        assert(ws.take(words@.len() as int) =~= ws);
    }
    out
}

/// `s` without the entries equal to `w` apart from ASCII case.
pub open spec fn without_word(s: Seq<Seq<char>>, w: Seq<char>) -> Seq<Seq<char>>
    decreases s.len(),
{
    if s.len() == 0 {
        Seq::empty()
    } else if eq_ignoring_ascii_case(s.last(), w) {
        without_word(s.drop_last(), w)
    } else {
        without_word(s.drop_last(), w).push(s.last())
    }
}

/// Some entry of `s` equals `w` apart from ASCII case.
pub open spec fn has_word(s: Seq<Seq<char>>, w: Seq<char>) -> bool {
    exists|i: int| 0 <= i < s.len() && eq_ignoring_ascii_case(#[trigger] s[i], w)
}

/// The message for an empty word.
pub const EMPTY_WORD: &'static str = "A word cannot be empty.";

/// Promote a learned word into the user's own dictionary.
///
/// The word is trimmed; a blank word is refused and nothing changes.
/// Otherwise it leaves the learned list (in any ASCII casing) and joins the
/// dictionary unless the dictionary already has it in some ASCII casing.
pub fn keep_learned_word(custom: &mut Vec<String>, learned: &mut Vec<String>, word: &str) -> (r:
    Result<(), String>)
    ensures
        trim_ws(word@).len() == 0 ==> (r matches Err(e) && e@ == EMPTY_WORD@) && final(custom)@
            == old(custom)@ && final(learned)@ == old(learned)@,
        trim_ws(word@).len() > 0 ==> r is Ok && string_views(final(learned)@) == without_word(
            string_views(old(learned)@),
            trim_ws(word@),
        ) && string_views(final(custom)@) == if has_word(
            string_views(old(custom)@),
            trim_ws(word@),
        ) {
            string_views(old(custom)@)
        } else {
            string_views(old(custom)@).push(trim_ws(word@))
        },
{
    let trimmed = trim(word);
    if trimmed.unicode_len() == 0 {
        return Err(EMPTY_WORD.to_owned());
    }
    let ghost ls = string_views(learned@);
    let mut kept: Vec<String> = Vec::new();
    let mut i: usize = 0;
    while i < learned.len()
        invariant
            i <= learned@.len(),
            ls == string_views(learned@),
            string_views(kept@) == without_word(ls.take(i as int), trimmed@),
        decreases learned.len() - i,
    {
        proof {
            assert(ls.take(i + 1).drop_last() =~= ls.take(i as int));
            assert(ls.take(i + 1).last() == learned@[i as int]@);
        }
        if !eq_ignore_ascii_case(learned[i].as_str(), trimmed.as_str()) {
            let ghost prev = string_views(kept@);
            kept.push(learned[i].clone());
            proof {
                assert(string_views(kept@) =~= prev.push(learned@[i as int]@));
            }
        }
        i += 1;
    }
    proof {
        assert(ls.take(learned@.len() as int) =~= ls);
    }
    *learned = kept;
    let ghost cs = string_views(custom@);
    let mut present = false;
    let mut j: usize = 0;
    while j < custom.len()
        invariant
            j <= custom@.len(),
            cs == string_views(custom@),
            present == exists|t: int| 0 <= t < j && eq_ignoring_ascii_case(#[trigger] cs[t], trimmed@),
        decreases custom.len() - j,
    {
        if eq_ignore_ascii_case(custom[j].as_str(), trimmed.as_str()) {
            present = true;
        }
        proof {
            if eq_ignoring_ascii_case(cs[j as int], trimmed@) {
                assert(exists|t: int| 0 <= t < j + 1 && eq_ignoring_ascii_case(#[trigger] cs[t], trimmed@));
            }
        }
        j += 1;
    }
    if !present {
        let ghost prev = string_views(custom@);
        custom.push(trimmed);
        proof {
            assert(string_views(custom@) =~= prev.push(trim_ws(word@)));
        }
    }
    Ok(())
}


/// The cleaned list has no blank entry and no two entries equal apart from
/// case, and it is never longer than the list given.
pub proof fn lemma_dedupe_is_clean(words: Seq<Seq<char>>)
    ensures
        dedupe_spec(words).len() <= words.len(),
        forall|i: int|
            0 <= i < dedupe_spec(words).len() ==> (#[trigger] dedupe_spec(words)[i]).len() > 0,
        forall|i: int, j: int|
            0 <= i < j < dedupe_spec(words).len() ==> lowercase(#[trigger] dedupe_spec(words)[i])
                != lowercase(#[trigger] dedupe_spec(words)[j]),
    decreases words.len(),
{
    if words.len() > 0 {
        let prev = dedupe_spec(words.drop_last());
        lemma_dedupe_is_clean(words.drop_last());
        let t = trim_ws(words.last());
        if !(t.len() == 0 || keys_of(prev).contains(lowercase(t))) {
            let d = prev.push(t);
            assert(dedupe_spec(words) == d);
            assert forall|i: int, j: int|
                0 <= i < j < d.len() implies lowercase(#[trigger] d[i]) != lowercase(
                #[trigger] d[j],
            ) by {
                if j == prev.len() {
                    assert(keys_of(prev)[i] == lowercase(prev[i]));
                }
            }
        }
    }
}

/// After a word is kept it is no longer among the learned words, in any
/// ASCII casing.
pub proof fn lemma_kept_word_leaves_learned_list(learned: Seq<Seq<char>>, word: Seq<char>)
    ensures
        forall|i: int|
            0 <= i < without_word(learned, word).len() ==> !eq_ignoring_ascii_case(
                #[trigger] without_word(learned, word)[i],
                word,
            ),
    decreases learned.len(),
{
    if learned.len() > 0 {
        let prev = without_word(learned.drop_last(), word);
        lemma_kept_word_leaves_learned_list(learned.drop_last(), word);
        if !eq_ignoring_ascii_case(learned.last(), word) {
            let w = prev.push(learned.last());
            assert(without_word(learned, word) == w);
            assert forall|i: int| 0 <= i < w.len() implies !eq_ignoring_ascii_case(
                #[trigger] w[i],
                word,
            ) by {
                if i < prev.len() {
                    assert(w[i] == prev[i]);
                }
            }
        }
    }
}

} // verus!
