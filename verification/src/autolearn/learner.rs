//! Keeping the words learned from corrections: what is already known, and
//! how the learned list grows and stays bounded.

use vstd::prelude::*;
use crate::autolearn::detect::{corrections_view, detect, detect_spec, string_views, Correction};
use crate::settings::AppSettings;
use crate::text::{chars_of, lowercase, to_lowercase, trim, trim_ws};

verus! {

/// Most words kept from corrections. At the cap the oldest are dropped.
pub const MAX_LEARNED_WORDS: usize = 200;

/// `s` without repeats, each value kept where it first appears.
pub open spec fn first_occurrences(s: Seq<Seq<char>>) -> Seq<Seq<char>>
    decreases s.len(),
{
    if s.len() == 0 {
        Seq::empty()
    } else if first_occurrences(s.drop_last()).contains(s.last()) {
        first_occurrences(s.drop_last())
    } else {
        first_occurrences(s.drop_last()).push(s.last())
    }
}

/// The lowercase forms of some words.
pub open spec fn lowered(s: Seq<Seq<char>>) -> Seq<Seq<char>> {
    s.map_values(|w: Seq<char>| lowercase(w))
}

/// Every word already known, lowercased, from the user's dictionary and the
/// learned list, each once.
pub open spec fn known_spec(custom: Seq<Seq<char>>, learned: Seq<Seq<char>>) -> Seq<Seq<char>> {
    first_occurrences(lowered(custom + learned))
}

/// Whether `w` is one of `list`, compared as strings.
fn contains_string(list: &Vec<String>, w: &String) -> (r: bool)
    ensures
        r == string_views(list@).contains(w@),
{
    let mut i: usize = 0;
    while i < list.len()
        invariant
            i <= list@.len(),
            forall|t: int| 0 <= t < i ==> string_views(list@)[t] != w@,
        decreases list.len() - i,
    {
        if list[i] == *w {
            assert(string_views(list@)[i as int] == w@);
            return true;
        }
        i += 1;
    }
    false
}

/// Append the lowercase forms of `words` to `out`, skipping those already in it.
fn add_lowered(out: &mut Vec<String>, words: &Vec<String>, Ghost(prefix): Ghost<Seq<Seq<char>>>)
    requires
        string_views(old(out)@) == first_occurrences(lowered(prefix)),
    ensures
        string_views(final(out)@) == first_occurrences(lowered(prefix + string_views(words@))),
{
    let mut i: usize = 0;
    while i < words.len()
        invariant
            i <= words@.len(),
            string_views(out@) == first_occurrences(
                lowered(prefix + string_views(words@).take(i as int)),
            ),
        decreases words.len() - i,
    {
        let ghost before = prefix + string_views(words@).take(i as int);
        let key = to_lowercase(words[i].as_str());
        proof {
            let after = prefix + string_views(words@).take(i + 1);
            assert(after =~= before.push(words@[i as int]@));
            assert(lowered(after) =~= lowered(before).push(lowercase(words@[i as int]@)));
            assert(lowered(after).drop_last() =~= lowered(before));
        }
        if !contains_string(out, &key) {
            let ghost prev = string_views(out@);
            out.push(key);
            proof {
                assert(string_views(out@) =~= prev.push(key@));
            }
        }
        i += 1;
    }
    proof {
        assert(string_views(words@).take(words@.len() as int) =~= string_views(words@));
    }
}

/// Every word already known, lowercased, from both lists, each once.
///
/// Both lists count: a word the user typed into their own dictionary must not
/// be learned again as a guess.
pub fn known_words(settings: &AppSettings) -> (r: Vec<String>)
    ensures
        string_views(r@) == known_spec(
            string_views(settings.custom_words@),
            string_views(settings.learned_words@),
        ),
{
    let mut out: Vec<String> = Vec::new();
    proof {
        assert(lowered(Seq::<Seq<char>>::empty()) =~= Seq::<Seq<char>>::empty());
        assert(string_views(out@) =~= first_occurrences(lowered(Seq::<Seq<char>>::empty())));
    }
    add_lowered(&mut out, &settings.custom_words, Ghost(Seq::empty()));
    proof {
        assert(Seq::<Seq<char>>::empty() + string_views(settings.custom_words@) =~= string_views(
            settings.custom_words@,
        ));
    }
    add_lowered(&mut out, &settings.learned_words, Ghost(string_views(settings.custom_words@)));
    proof {
        assert(string_views(settings.custom_words@) + string_views(settings.learned_words@)
            =~= string_views(settings.custom_words@ + settings.learned_words@)) by {
            assert(string_views(settings.custom_words@ + settings.learned_words@) =~= string_views(
                settings.custom_words@,
            ) + string_views(settings.learned_words@));
        }
    }
    out
}

/// The replacements of the corrections whose lowercase form is not known.
pub open spec fn new_words(
    corrections: Seq<(Seq<char>, Seq<char>)>,
    known: Seq<Seq<char>>,
) -> Seq<Seq<char>>
    decreases corrections.len(),
{
    if corrections.len() == 0 {
        Seq::empty()
    } else if known.contains(lowercase(corrections.last().1)) {
        new_words(corrections.drop_last(), known)
    } else {
        new_words(corrections.drop_last(), known).push(corrections.last().1)
    }
}

/// The last `MAX_LEARNED_WORDS` of `s`.
pub open spec fn capped(s: Seq<Seq<char>>) -> Seq<Seq<char>> {
    if s.len() > MAX_LEARNED_WORDS {
        s.skip(s.len() - MAX_LEARNED_WORDS)
    } else {
        s
    }
}

/// What remembering some corrections does to the settings.
pub struct Remembered {
    /// The words added, in order.
    pub added: Vec<String>,
    /// The learned list afterwards, oldest first.
    pub learned: Vec<String>,
}

/// Store the words that some corrections taught.
///
/// Each correction whose replacement is not already known (in any casing, in
/// either list) is appended to the learned list; the list is then cut back
/// to its newest `MAX_LEARNED_WORDS`. When nothing is added the learned list
/// is unchanged and the settings need not be written.
pub fn remember(settings: &AppSettings, corrections: &[Correction]) -> (r: Remembered)
    ensures
        string_views(r.added@) == new_words(
            corrections_view(corrections@),
            known_spec(string_views(settings.custom_words@), string_views(settings.learned_words@)),
        ),
        string_views(r.learned@) == if r.added@.len() == 0 {
            string_views(settings.learned_words@)
        } else {
            capped(string_views(settings.learned_words@) + string_views(r.added@))
        },
{
    let known = known_words(settings);
    let ghost ks = string_views(known@);
    let ghost cs = corrections_view(corrections@);
    let mut added: Vec<String> = Vec::new();
    let mut i: usize = 0;
    while i < corrections.len()
        invariant
            i <= corrections@.len(),
            cs == corrections_view(corrections@),
            ks == string_views(known@),
            string_views(added@) == new_words(cs.take(i as int), ks),
        decreases corrections.len() - i,
    {
        proof {
            assert(cs.take(i + 1).drop_last() =~= cs.take(i as int));
            assert(cs.take(i + 1).last() == corrections@[i as int]@);
        }
        let key = to_lowercase(corrections[i].to.as_str());
        if !contains_string(&known, &key) {
            let ghost prev = string_views(added@);
            added.push(corrections[i].to.clone());
            proof {
                assert(string_views(added@) =~= prev.push(corrections@[i as int].to@));
            }
        }
        i += 1;
    }
    proof {
        assert(cs.take(corrections@.len() as int) =~= cs);
    }
    if added.len() == 0 {
        return Remembered { added, learned: settings.learned_words.clone() };
    }
    let mut all: Vec<String> = settings.learned_words.clone();
    let mut j: usize = 0;
    while j < added.len()
        invariant
            j <= added@.len(),
            string_views(all@) == string_views(settings.learned_words@) + string_views(
                added@,
            ).take(j as int),
        decreases added.len() - j,
    {
        let ghost prev = string_views(all@);
        all.push(added[j].clone());
        proof {
            assert(string_views(all@) =~= prev.push(added@[j as int]@));
            assert(string_views(added@).take(j + 1) =~= string_views(added@).take(j as int).push(
                added@[j as int]@,
            ));
        }
        j += 1;
    }
    proof {
        assert(string_views(added@).take(added@.len() as int) =~= string_views(added@));
    }
    let ghost whole = string_views(all@);
    let mut learned: Vec<String> = Vec::new();
    let start = if all.len() > MAX_LEARNED_WORDS {
        all.len() - MAX_LEARNED_WORDS
    } else {
        0
    };
    let mut k = start;
    while k < all.len()
        invariant
            start <= k <= all@.len(),
            whole == string_views(all@),
            string_views(learned@) == whole.subrange(start as int, k as int),
        decreases all.len() - k,
    {
        let ghost prev = string_views(learned@);
        learned.push(all[k].clone());
        proof {
            assert(string_views(learned@) =~= prev.push(all@[k as int]@));
            assert(whole.subrange(start as int, k + 1) =~= whole.subrange(start as int, k as int).push(
                whole[k as int],
            ));
        }
        k += 1;
    }
    proof {
        assert(whole.subrange(start as int, whole.len() as int) =~= capped(whole));
    }
    Remembered { added, learned }
}


/// `first_occurrences` keeps exactly the values of `s`, each once.
proof fn lemma_first_occurrences(s: Seq<Seq<char>>)
    ensures
        forall|x: Seq<char>| first_occurrences(s).contains(x) <==> s.contains(x),
        forall|i: int, j: int|
            0 <= i < j < first_occurrences(s).len() ==> first_occurrences(s)[i]
                != first_occurrences(s)[j],
    decreases s.len(),
{
    if s.len() > 0 {
        let p = s.drop_last();
        lemma_first_occurrences(p);
        assert forall|x: Seq<char>| first_occurrences(s).contains(x) <==> s.contains(x) by {
            if s.contains(x) {
                let k = choose|k: int| 0 <= k < s.len() && s[k] == x;
                if k < s.len() - 1 {
                    assert(p[k] == x);
                    assert(p.contains(x));
                }
            }
            if p.contains(x) {
                let k = choose|k: int| 0 <= k < p.len() && p[k] == x;
                assert(s[k] == x);
            }
            if first_occurrences(s).contains(x) && !first_occurrences(p).contains(x) {
                let k = choose|k: int|
                    0 <= k < first_occurrences(s).len() && first_occurrences(s)[k] == x;
                assert(x == s.last());
                assert(s[s.len() - 1] == x);
            }
            if first_occurrences(p).contains(x) && !first_occurrences(p).contains(s.last()) {
                let k = choose|k: int|
                    0 <= k < first_occurrences(p).len() && first_occurrences(p)[k] == x;
                assert(first_occurrences(s)[k] == x);
            }
            if x == s.last() && !first_occurrences(p).contains(x) {
                assert(first_occurrences(s)[first_occurrences(s).len() - 1] == x);
            }
        }
    }
}

/// The known words cover both lists: every word of the user's dictionary and
/// of the learned list is known in lowercase, every known word is the
/// lowercase form of one of them, and none is known twice.
pub proof fn lemma_known_words_cover_both_lists(custom: Seq<Seq<char>>, learned: Seq<Seq<char>>)
    ensures
        forall|i: int|
            0 <= i < custom.len() ==> known_spec(custom, learned).contains(
                lowercase(#[trigger] custom[i]),
            ),
        forall|i: int|
            0 <= i < learned.len() ==> known_spec(custom, learned).contains(
                lowercase(#[trigger] learned[i]),
            ),
        forall|x: Seq<char>|
            known_spec(custom, learned).contains(x) ==> lowered(custom + learned).contains(x),
        forall|i: int, j: int|
            0 <= i < j < known_spec(custom, learned).len() ==> known_spec(custom, learned)[i]
                != known_spec(custom, learned)[j],
{
    let all = lowered(custom + learned);
    lemma_first_occurrences(all);
    assert forall|i: int| 0 <= i < custom.len() implies known_spec(custom, learned).contains(
        lowercase(#[trigger] custom[i]),
    ) by {
        assert(all[i] == lowercase(custom[i]));
        assert(all.contains(lowercase(custom[i])));
    }
    assert forall|i: int| 0 <= i < learned.len() implies known_spec(custom, learned).contains(
        lowercase(#[trigger] learned[i]),
    ) by {
        assert(all[custom.len() + i] == lowercase(learned[i]));
        assert(all.contains(lowercase(learned[i])));
    }
}

/// The learned list stays bounded and keeps the newest words: after words
/// are added it holds at most `MAX_LEARNED_WORDS`, and when no more than
/// that many were added they are all at its end, in order.
pub proof fn lemma_learned_list_is_bounded(learned: Seq<Seq<char>>, added: Seq<Seq<char>>)
    ensures
        capped(learned + added).len() <= MAX_LEARNED_WORDS,
        added.len() <= MAX_LEARNED_WORDS ==> capped(learned + added).subrange(
            capped(learned + added).len() - added.len(),
            capped(learned + added).len() as int,
        ) == added,
{
    let all = learned + added;
    if added.len() <= MAX_LEARNED_WORDS {
        let c = capped(all);
        assert(c.subrange(c.len() - added.len(), c.len() as int) =~= added);
    }
}


/// What one reading of the watched field decides.
pub enum FieldVerdict {
    /// Learning from corrections was switched off: stop watching, learn
    /// nothing.
    SwitchedOff,
    /// No correction yet: keep watching, the user may still fix it.
    KeepWatching,
    /// The corrections found: remember them and stop watching this
    /// dictation.
    Learned(Vec<Correction>),
}

/// Decide on one reading of the field a transcript was pasted into. The
/// settings are those of the moment, so switching the feature off, or adding
/// the word by hand, takes effect during a watch. Corrections are looked for
/// against every word already known.
pub fn on_field_text(settings: &AppSettings, pasted: &str, current_text: &str) -> (r: FieldVerdict)
    requires
        pasted@.len() < usize::MAX,
    ensures
        !settings.auto_learn_corrections ==> r is SwitchedOff,
        settings.auto_learn_corrections ==> ({
            let found = detect_spec(
                pasted@,
                current_text@,
                known_spec(
                    string_views(settings.custom_words@),
                    string_views(settings.learned_words@),
                ),
            );
            match r {
                FieldVerdict::SwitchedOff => false,
                FieldVerdict::KeepWatching => found.len() == 0,
                FieldVerdict::Learned(v) => found.len() > 0 && corrections_view(v@) == found,
            }
        }),
{
    if !settings.auto_learn_corrections {
        return FieldVerdict::SwitchedOff;
    }
    let known = known_words(settings);
    let corrections = detect(pasted, current_text, known.as_slice());
    if corrections.len() == 0 {
        FieldVerdict::KeepWatching
    } else {
        FieldVerdict::Learned(corrections)
    }
}

/// Whether a paste starts a watch: only for a transcript with some text, and
/// only while learning from corrections is switched on.
pub fn watch_wanted(pasted: &str, enabled: bool) -> (r: bool)
    ensures
        r == (trim_ws(pasted@).len() > 0 && enabled),
{
    let t = trim(pasted);
    !t.as_str().is_empty() && enabled
}

} // verus!
