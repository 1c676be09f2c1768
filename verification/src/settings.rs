//! The user settings that the library's decisions read.
//!
//! Settings are loaded and stored by the application; the library only reads
//! the fields below. A map from provider id to a value is held as a list of
//! `(id, value)` pairs with distinct ids, looked up by id.

use vstd::prelude::*;
use crate::text::same_text;

verus! {

/// When the assistant may look at the user's screen.
#[derive(Clone, Copy, Debug, PartialEq, Eq, Structural)]
pub enum AssistantScreenAccessMode {
    /// Never.
    Off,
    /// Only when the user arms the camera or picks a region.
    Manual,
    /// The model decides, through a screen-capture tool.
    AgentDecides,
}

/// An LLM provider: where requests go and under which id its model and key
/// are filed.
#[derive(Clone, Debug)]
pub struct PostProcessProvider {
    /// Stable id, the key of the model and API-key lists.
    pub id: String,
    /// Name shown to the user.
    pub label: String,
    /// Base URL of the provider's API.
    pub base_url: String,
}

impl View for PostProcessProvider {
    type V = (Seq<char>, Seq<char>, Seq<char>);

    open spec fn view(&self) -> (Seq<char>, Seq<char>, Seq<char>) {
        (self.id@, self.label@, self.base_url@)
    }
}

impl PostProcessProvider {
    /// A copy of this provider.
    pub fn duplicate(&self) -> (r: Self)
        ensures
            r@ == self@,
    {
        PostProcessProvider {
            id: self.id.clone(),
            label: self.label.clone(),
            base_url: self.base_url.clone(),
        }
    }
}

/// The settings the library reads.
#[derive(Clone, Debug)]
pub struct AppSettings {
    /// Whether "Generate with Flow" is on.
    pub flow_enabled: bool,
    /// The activation phrase that starts a Flow command.
    pub flow_phrase: String,
    /// Whether Flow may look at the screen.
    pub flow_screen_access: bool,
    /// The provider the assistant uses, if one is selected.
    pub assistant_provider: Option<PostProcessProvider>,
    /// The assistant's model for each provider id.
    pub assistant_models: Vec<(String, String)>,
    /// The API key for each provider id.
    pub post_process_api_keys: Vec<(String, String)>,
    /// Whether words are learned from the user's corrections.
    pub auto_learn_corrections: bool,
    /// The user's own dictionary.
    pub custom_words: Vec<String>,
    /// Words learned from corrections, oldest first.
    pub learned_words: Vec<String>,
    /// When the assistant may look at the screen.
    pub assistant_screen_access_mode: AssistantScreenAccessMode,
}

/// The views of a list of `(key, value)` string pairs.
pub open spec fn pairs_view(v: Seq<(String, String)>) -> Seq<(Seq<char>, Seq<char>)> {
    v.map_values(|p: (String, String)| (p.0@, p.1@))
}

/// The value filed under `key`: the first pair with that key, or the empty
/// string when there is none.
pub open spec fn lookup(entries: Seq<(Seq<char>, Seq<char>)>, key: Seq<char>) -> Seq<char>
    decreases entries.len(),
{
    if entries.len() == 0 {
        Seq::empty()
    } else if entries[0].0 == key {
        entries[0].1
    } else {
        lookup(entries.drop_first(), key)
    }
}

/// The value filed under `key`, or the empty string.
pub fn lookup_value(entries: &Vec<(String, String)>, key: &String) -> (r: String)
    ensures
        r@ == lookup(pairs_view(entries@), key@),
{
    let ghost all = pairs_view(entries@);
    assert(all.skip(0) =~= all);
    let mut i: usize = 0;
    while i < entries.len()
        invariant
            i <= entries@.len(),
            all == pairs_view(entries@),
            lookup(all, key@) == lookup(all.skip(i as int), key@),
        decreases entries.len() - i,
    {
        proof {
            assert(all.skip(i as int).drop_first() =~= all.skip(i + 1));
            assert(all.skip(i as int)[0] == all[i as int]);
        }
        if entries[i].0 == *key {
            return entries[i].1.clone();
        }
        i += 1;
    }
    proof {
        assert(all.skip(i as int).len() == 0);
    }
    String::new()
}


/// Whether a pair with `key` is filed.
pub open spec fn has_key(entries: Seq<(Seq<char>, Seq<char>)>, key: Seq<char>) -> bool {
    exists|i: int| 0 <= i < entries.len() && entries[i].0 == key
}

/// `lookup` finds the first pair with the key.
proof fn lemma_lookup_first(entries: Seq<(Seq<char>, Seq<char>)>, key: Seq<char>, i: int)
    requires
        0 <= i < entries.len(),
        entries[i].0 == key,
        forall|j: int| 0 <= j < i ==> entries[j].0 != key,
    ensures
        lookup(entries, key) == entries[i].1,
    decreases i,
{
    if i > 0 {
        lemma_lookup_first(entries.drop_first(), key, i - 1);
    }
}

/// Without a pair for `key`, `lookup` finds nothing.
proof fn lemma_lookup_absent(entries: Seq<(Seq<char>, Seq<char>)>, key: Seq<char>)
    requires
        !has_key(entries, key),
    ensures
        lookup(entries, key) == Seq::<char>::empty(),
    decreases entries.len(),
{
    if entries.len() > 0 {
        assert(entries[0].0 != key);
        let rest = entries.drop_first();
        assert(!has_key(rest, key)) by {
            if has_key(rest, key) {
                let i = choose|i: int| 0 <= i < rest.len() && rest[i].0 == key;
                assert(entries[i + 1].0 == key);
            }
        }
        lemma_lookup_absent(rest, key);
    }
}

/// Two lists agree on `k` when their first pairs with `k` agree.
proof fn lemma_lookup_agrees(
    a: Seq<(Seq<char>, Seq<char>)>,
    b: Seq<(Seq<char>, Seq<char>)>,
    k: Seq<char>,
)
    requires
        a.len() <= b.len(),
        forall|j: int| 0 <= j < a.len() ==> a[j] == b[j],
        has_key(a, k) || !has_key(b, k),
    ensures
        lookup(a, k) == lookup(b, k),
    decreases a.len(),
{
    if a.len() == 0 {
        lemma_lookup_absent(b, k);
    } else {
        assert(a[0] == b[0]);
        if a[0].0 != k {
            let (ra, rb) = (a.drop_first(), b.drop_first());
            assert forall|j: int| 0 <= j < ra.len() implies ra[j] == rb[j] by {
                assert(ra[j] == a[j + 1]);
                assert(rb[j] == b[j + 1]);
            }
            if has_key(a, k) {
                let i = choose|i: int| 0 <= i < a.len() && a[i].0 == k;
                assert(ra[i - 1].0 == k);
            } else {
                assert(!has_key(rb, k)) by {
                    if has_key(rb, k) {
                        let i = choose|i: int| 0 <= i < rb.len() && rb[i].0 == k;
                        assert(b[i + 1].0 == k);
                    }
                }
            }
            lemma_lookup_agrees(ra, rb, k);
        }
    }
}

/// File `value` under `key`: the first pair with the key gets the value, or
/// a pair is added when there is none. Reading `key` back gives `value`;
/// every other key reads as before.
pub fn file_value(entries: &mut Vec<(String, String)>, key: &str, value: String)
    ensures
        lookup(pairs_view(final(entries)@), key@) == value@,
        has_key(pairs_view(final(entries)@), key@),
        forall|k: Seq<char>|
            k != key@ ==> #[trigger] lookup(pairs_view(final(entries)@), k) == lookup(
                pairs_view(old(entries)@),
                k,
            ),
        forall|k: Seq<char>|
            k != key@ ==> #[trigger] has_key(pairs_view(final(entries)@), k) == has_key(
                pairs_view(old(entries)@),
                k,
            ),
{
    let ghost before = pairs_view(entries@);
    let mut i: usize = 0;
    while i < entries.len()
        invariant
            i <= entries@.len(),
            entries@ == old(entries)@,
            before == pairs_view(entries@),
            forall|j: int| 0 <= j < i ==> before[j].0 != key@,
        decreases entries.len() - i,
    {
        if same_text(entries[i].0.as_str(), key) {
            proof {
                assert(before[i as int].0 == key@);
            }
            let k = entries[i].0.clone();
            entries.set(i, (k, value));
            let ghost after = pairs_view(entries@);
            proof {
                assert(after[i as int] == (key@, value@));
                assert forall|j: int| 0 <= j < i implies after[j].0 != key@ by {
                    assert(after[j] == before[j]);
                }
                lemma_lookup_first(after, key@, i as int);
                assert forall|k: Seq<char>| k != key@ implies #[trigger] lookup(after, k) == lookup(
                    before,
                    k,
                ) by {
                    lemma_lookup_rewritten(before, after, i as int, k);
                }
                assert forall|k: Seq<char>| k != key@ implies #[trigger] has_key(after, k)
                    == has_key(before, k) by {
                    if has_key(after, k) {
                        let j = choose|j: int| 0 <= j < after.len() && after[j].0 == k;
                        assert(before[j].0 == k);
                    }
                    if has_key(before, k) {
                        let j = choose|j: int| 0 <= j < before.len() && before[j].0 == k;
                        assert(after[j].0 == k);
                    }
                }
            }
            return;
        }
        i += 1;
    }
    let k = key.to_string();
    entries.push((k, value));
    let ghost after = pairs_view(entries@);
    proof {
        assert(after =~= before.push((key@, value@)));
        assert(after[before.len() as int].0 == key@);
        lemma_lookup_first(after, key@, before.len() as int);
        assert forall|k: Seq<char>| k != key@ implies #[trigger] lookup(after, k) == lookup(
            before,
            k,
        ) by {
            if has_key(before, k) {
                lemma_lookup_agrees(before, after, k);
            } else {
                assert(!has_key(after, k)) by {
                    if has_key(after, k) {
                        let j = choose|j: int| 0 <= j < after.len() && after[j].0 == k;
                        assert(before[j].0 == k);
                    }
                }
                lemma_lookup_absent(before, k);
                lemma_lookup_absent(after, k);
            }
        }
        assert forall|k: Seq<char>| k != key@ implies #[trigger] has_key(after, k) == has_key(
            before,
            k,
        ) by {
            if has_key(after, k) {
                let j = choose|j: int| 0 <= j < after.len() && after[j].0 == k;
                assert(before[j].0 == k);
            }
            if has_key(before, k) {
                let j = choose|j: int| 0 <= j < before.len() && before[j].0 == k;
                assert(after[j].0 == k);
            }
        }
    }
}

/// Rewriting one pair's value leaves the reading of every other key alone.
proof fn lemma_lookup_rewritten(
    before: Seq<(Seq<char>, Seq<char>)>,
    after: Seq<(Seq<char>, Seq<char>)>,
    i: int,
    k: Seq<char>,
)
    requires
        before.len() == after.len(),
        0 <= i < before.len(),
        after[i].0 == before[i].0,
        before[i].0 != k,
        forall|j: int| 0 <= j < before.len() && j != i ==> after[j] == before[j],
    ensures
        lookup(after, k) == lookup(before, k),
    decreases before.len(),
{
    if before.len() > 0 {
        if i == 0 {
            assert(after.drop_first() =~= before.drop_first());
        } else if before[0].0 != k {
            assert(after[0] == before[0]);
            let (rb, ra) = (before.drop_first(), after.drop_first());
            assert forall|j: int| 0 <= j < rb.len() && j != i - 1 implies ra[j] == rb[j] by {
                assert(ra[j] == after[j + 1]);
                assert(rb[j] == before[j + 1]);
            }
            lemma_lookup_rewritten(rb, ra, i - 1, k);
        } else {
            assert(after[0] == before[0]);
        }
    }
}

/// The pairs of `s` whose key is not `key`, in order.
pub open spec fn without_key(s: Seq<(Seq<char>, Seq<char>)>, key: Seq<char>) -> Seq<
    (Seq<char>, Seq<char>),
>
    decreases s.len(),
{
    if s.len() == 0 {
        Seq::empty()
    } else if s.last().0 != key {
        without_key(s.drop_last(), key).push(s.last())
    } else {
        without_key(s.drop_last(), key)
    }
}

/// Whether a key is filed after one more pair.
proof fn lemma_has_key_push(
    a: Seq<(Seq<char>, Seq<char>)>,
    p: (Seq<char>, Seq<char>),
    k: Seq<char>,
)
    ensures
        has_key(a.push(p), k) == (has_key(a, k) || p.0 == k),
{
    let b = a.push(p);
    if has_key(b, k) {
        let j = choose|j: int| 0 <= j < b.len() && b[j].0 == k;
        if j < a.len() {
            assert(a[j].0 == k);
        }
    }
    if has_key(a, k) {
        let j = choose|j: int| 0 <= j < a.len() && a[j].0 == k;
        assert(b[j].0 == k);
    }
    if p.0 == k {
        assert(b[a.len() as int].0 == k);
    }
}

/// What a key reads after one more pair: as before when it was filed, else
/// the new pair's value when the pair is for it, else nothing.
proof fn lemma_lookup_push(
    a: Seq<(Seq<char>, Seq<char>)>,
    p: (Seq<char>, Seq<char>),
    k: Seq<char>,
)
    ensures
        lookup(a.push(p), k) == if has_key(a, k) {
            lookup(a, k)
        } else if p.0 == k {
            p.1
        } else {
            Seq::<char>::empty()
        },
    decreases a.len(),
{
    let b = a.push(p);
    if a.len() == 0 {
        assert(!has_key(a, k));
        assert(b[0] == p);
        assert(b.drop_first() =~= Seq::<(Seq<char>, Seq<char>)>::empty());
        assert(lookup(b.drop_first(), k) == Seq::<char>::empty());
    } else {
        let rest = a.drop_first();
        assert(b.drop_first() =~= rest.push(p));
        assert(b[0] == a[0]);
        lemma_lookup_push(rest, p, k);
        if a[0].0 != k {
            assert(has_key(a, k) == has_key(rest, k)) by {
                if has_key(a, k) {
                    let j = choose|j: int| 0 <= j < a.len() && a[j].0 == k;
                    assert(rest[j - 1].0 == k);
                }
                if has_key(rest, k) {
                    let j = choose|j: int| 0 <= j < rest.len() && rest[j].0 == k;
                    assert(a[j + 1].0 == k);
                }
            }
            assert(lookup(b, k) == lookup(rest.push(p), k));
            assert(lookup(a, k) == lookup(rest, k));
        } else {
            assert(has_key(a, k)) by {
                assert(a[0].0 == k);
            }
            assert(lookup(b, k) == a[0].1);
        }
    }
}

/// Dropping the pairs of one key: that key is no longer filed, and every
/// other key is filed, and reads, as before.
proof fn lemma_without_key(s: Seq<(Seq<char>, Seq<char>)>, key: Seq<char>, k: Seq<char>)
    ensures
        !has_key(without_key(s, key), key),
        k != key ==> has_key(without_key(s, key), k) == has_key(s, k),
        k != key ==> lookup(without_key(s, key), k) == lookup(s, k),
    decreases s.len(),
{
    if s.len() == 0 {
        assert(!has_key(without_key(s, key), key));
        assert(!has_key(s, k));
    } else {
        let t = s.drop_last();
        let p = s.last();
        assert(s =~= t.push(p));
        lemma_without_key(t, key, k);
        let wt = without_key(t, key);
        lemma_has_key_push(t, p, k);
        lemma_lookup_push(t, p, k);
        if p.0 != key {
            lemma_has_key_push(wt, p, key);
            lemma_has_key_push(wt, p, k);
            lemma_lookup_push(wt, p, k);
        } else if k != key {
            if !has_key(t, k) {
                lemma_lookup_absent(t, k);
            }
        }
    }
}

/// Take `key` out: every pair with it is dropped, the others kept in order.
/// Reading `key` back gives nothing; every other key reads as before.
pub fn unfile(entries: &mut Vec<(String, String)>, key: &str)
    ensures
        pairs_view(final(entries)@) == without_key(pairs_view(old(entries)@), key@),
        !has_key(pairs_view(final(entries)@), key@),
        lookup(pairs_view(final(entries)@), key@) == Seq::<char>::empty(),
        forall|k: Seq<char>|
            k != key@ ==> #[trigger] lookup(pairs_view(final(entries)@), k) == lookup(
                pairs_view(old(entries)@),
                k,
            ),
        forall|k: Seq<char>|
            k != key@ ==> #[trigger] has_key(pairs_view(final(entries)@), k) == has_key(
                pairs_view(old(entries)@),
                k,
            ),
{
    let ghost before = pairs_view(entries@);
    let mut kept: Vec<(String, String)> = Vec::new();
    let mut i: usize = 0;
    while i < entries.len()
        invariant
            i <= entries@.len(),
            entries@ == old(entries)@,
            before == pairs_view(entries@),
            pairs_view(kept@) == without_key(before.take(i as int), key@),
        decreases entries.len() - i,
    {
        proof {
            assert(before.take(i + 1).drop_last() =~= before.take(i as int));
        }
        if !same_text(entries[i].0.as_str(), key) {
            let ghost prev = pairs_view(kept@);
            kept.push((entries[i].0.clone(), entries[i].1.clone()));
            proof {
                assert(pairs_view(kept@) =~= prev.push(before[i as int]));
            }
        }
        i += 1;
    }
    proof {
        assert(before.take(entries@.len() as int) =~= before);
    }
    *entries = kept;
    proof {
        lemma_without_key(before, key@, key@);
        lemma_lookup_absent(without_key(before, key@), key@);
        assert forall|k: Seq<char>| k != key@ implies #[trigger] lookup(
            without_key(before, key@),
            k,
        ) == lookup(before, k) by {
            lemma_without_key(before, key@, k);
        }
        assert forall|k: Seq<char>| k != key@ implies #[trigger] has_key(
            without_key(before, key@),
            k,
        ) == has_key(before, k) by {
            lemma_without_key(before, key@, k);
        }
    }
}

} // verus!
