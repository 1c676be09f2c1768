//! Deciding what a user's edit taught: pasted text and edited text in,
//! candidate words out.
//!
//! Most edits are rejected on purpose. Only one-word-for-one-word
//! substitutions inside the pasted region count, the replacement has to look
//! like a word, it has to be close to what it replaced (or differ from it
//! only in case), and a heavily edited paragraph teaches nothing at all.

use vstd::prelude::*;
use crate::edit::{
    edit_distance, indel_distance, lemma_edit_distance_empty, lemma_edit_distance_le_max,
    lemma_edit_distance_self, lemma_edit_distance_step, lemma_edit_distance_zero, lemma_indel_empty,
    lemma_indel_le_sum,
    lemma_indel_self, lemma_indel_step,
};
use crate::text::{
    char_is_alphabetic, chars_of, is_alphabetic, lemma_words_len, lowercase, slice_to_vec,
    split_whitespace, string_from_chars, to_lowercase, trim_by, trim_chars, views, words, lead, trail,
    trim_start_by,
    CharClass,
};
use std::collections::VecDeque;

verus! {

/// Shortest word worth learning.
pub const MIN_WORD_LEN: usize = 4;

/// Longest word worth learning.
pub const MAX_WORD_LEN: usize = 40;

/// Most corrections taken from one dictation.
pub const MAX_PER_DICTATION: usize = 3;

/// Above this many words in the target field, give up rather than scan.
pub const MAX_FIELD_TOKENS: usize = 4000;

/// A word and its replacement count as a correction when their normalised
/// Levenshtein similarity is at least `MIN_SIMILARITY_NUM / MIN_SIMILARITY_DEN`
/// (0.55).
pub const MIN_SIMILARITY_NUM: usize = 11;

/// Denominator of the similarity floor.
pub const MIN_SIMILARITY_DEN: usize = 20;

/// An edit that changes more than `MAX_EDIT_NUM / MAX_EDIT_DEN` (0.4) of the
/// pasted words is a rewrite and teaches nothing.
pub const MAX_EDIT_NUM: usize = 2;

/// Denominator of the edit ratio.
pub const MAX_EDIT_DEN: usize = 5;

/// The form of a token used for comparison: the token without the
/// punctuation around it. Case is kept.
pub open spec fn core_of(w: Seq<char>) -> Seq<char> {
    trim_by(w, CharClass::WordEdge)
}

/// The comparison keys of a sequence of tokens.
pub open spec fn keys(ws: Seq<Seq<char>>) -> Seq<Seq<char>> {
    ws.map_values(|w: Seq<char>| core_of(w))
}

/// Word-level edit distance between two token sequences, comparing keys.
pub open spec fn word_dist(a: Seq<Seq<char>>, b: Seq<Seq<char>>) -> nat {
    edit_distance(keys(a), keys(b))
}

/// One step of the alignment between the original and edited word sequences.
pub ghost enum AlignStep {
    Keep(int, int),
    Replace(Seq<char>, Seq<char>),
    Insert(Seq<char>),
    Delete(Seq<char>),
}

/// One step of the alignment, as returned.
#[derive(Clone, Debug, PartialEq, Eq)]
pub enum Op {
    /// The word at this index of the original matches the word at this index
    /// of the edited text.
    Keep(usize, usize),
    /// A word of the original was replaced by another word.
    Replace(String, String),
    /// A word was added.
    Insert(String),
    /// A word was removed.
    Delete(String),
}

impl View for Op {
    type V = AlignStep;

    open spec fn view(&self) -> AlignStep {
        match self {
            Op::Keep(i, j) => AlignStep::Keep(*i as int, *j as int),
            Op::Replace(f, t) => AlignStep::Replace(f@, t@),
            Op::Insert(t) => AlignStep::Insert(t@),
            Op::Delete(f) => AlignStep::Delete(f@),
        }
    }
}

/// The cost of aligning the first `i` words of `a` with the first `j` of `b`:
/// an insertion or a deletion costs one, a substitution two (as much as the
/// insertion-deletion pair it stands for), a match nothing.
pub open spec fn cell(a: Seq<Seq<char>>, b: Seq<Seq<char>>, i: int, j: int) -> nat {
    indel_distance(keys(a).take(i), keys(b).take(j))
}

/// The alignment of the first `i` words of `a` with the first `j` words of
/// `b`, read back from the cost table: a substitution (or a match) is
/// preferred, then a deletion, then an insertion. A substitution weighs as
/// much as an insertion and a deletion, so where both are cheapest the tie
/// goes to the substitution.
pub open spec fn trace(a: Seq<Seq<char>>, b: Seq<Seq<char>>, i: nat, j: nat) -> Seq<AlignStep>
    decreases i + j,
{
    if i == 0 && j == 0 {
        Seq::empty()
    } else if i > 0 && j > 0 && cell(a, b, i as int, j as int) == cell(
        a,
        b,
        i - 1,
        j - 1,
    ) + if keys(a)[i - 1] == keys(b)[j - 1] {
        0nat
    } else {
        2nat
    } {
        trace(a, b, (i - 1) as nat, (j - 1) as nat).push(
            if keys(a)[i - 1] == keys(b)[j - 1] {
                AlignStep::Keep(i - 1, j - 1)
            } else {
                AlignStep::Replace(a[i - 1], b[j - 1])
            },
        )
    } else if i > 0 && (j == 0 || cell(a, b, i as int, j as int) == cell(a, b, i - 1, j as int)
        + 1) {
        trace(a, b, (i - 1) as nat, j).push(AlignStep::Delete(a[i - 1]))
    } else if j > 0 {
        trace(a, b, i, (j - 1) as nat).push(AlignStep::Insert(b[j - 1]))
    } else {
        Seq::empty()
    }
}

/// The alignment of two whole token sequences.
pub open spec fn align_spec(a: Seq<Seq<char>>, b: Seq<Seq<char>>) -> Seq<AlignStep> {
    trace(a, b, a.len(), b.len())
}

/// The punctuation-free core of a token.
pub fn trim_word(token: &[char]) -> (r: Vec<char>)
    ensures
        r@ == core_of(token@),
{
    trim_chars(token, CharClass::WordEdge)
}

/// The form of a token used for comparison (see `core_of`).
pub fn compare_key(token: &[char]) -> (r: Vec<char>)
    ensures
        r@ == core_of(token@),
{
    trim_word(token)
}

/// The comparison keys of some tokens.
fn keys_of(ws: &Vec<Vec<char>>) -> (r: Vec<Vec<char>>)
    ensures
        views(r@) == keys(views(ws@)),
        r@.len() == ws@.len(),
{
    let mut out: Vec<Vec<char>> = Vec::new();
    let mut i: usize = 0;
    while i < ws.len()
        invariant
            i <= ws@.len(),
            views(out@) == keys(views(ws@)).take(i as int),
        decreases ws.len() - i,
    {
        let k = compare_key(ws[i].as_slice());
        let ghost before = views(out@);
        out.push(k);
        proof {
            assert(views(ws@)[i as int] == ws@[i as int]@);
            assert(keys(views(ws@))[i as int] == core_of(ws@[i as int]@));
            assert(views(out@) =~= before.push(k@));
            assert(keys(views(ws@)).take(i + 1) =~= keys(views(ws@)).take(i as int).push(
                keys(views(ws@))[i as int],
            ));
        }
        i += 1;
    }
    proof {
        assert(keys(views(ws@)).take(ws@.len() as int) =~= keys(views(ws@)));
    }
    out
}

/// Whether two character sequences are equal.
pub fn chars_eq(a: &[char], b: &[char]) -> (r: bool)
    ensures
        r == (a@ == b@),
{
    if a.len() != b.len() {
        return false;
    }
    let mut i: usize = 0;
    while i < a.len()
        invariant
            i <= a@.len(),
            a@.len() == b@.len(),
            forall|t: int| 0 <= t < i ==> a@[t] == b@[t],
        decreases a.len() - i,
    {
        if a[i] != b[i] {
            return false;
        }
        i += 1;
    }
    assert(a@ =~= b@);
    true
}

/// Word-level edit distance between `a` and `b[from..to]`, both given as
/// comparison keys.
fn word_distance(a: &Vec<Vec<char>>, b: &Vec<Vec<char>>, from: usize, to: usize) -> (r: usize)
    requires
        from <= to <= b@.len(),
        a@.len() < usize::MAX,
        to - from < usize::MAX,
    ensures
        r == edit_distance(views(a@), views(b@).subrange(from as int, to as int)),
{
    let ghost sa = views(a@);
    let ghost sb = views(b@).subrange(from as int, to as int);
    let m = to - from;
    let mut previous: Vec<usize> = Vec::new();
    let mut j: usize = 0;
    while j <= m
        invariant
            j <= m + 1,
            m == sb.len(),
            m < usize::MAX,
            previous@.len() == j,
            forall|t: int| 0 <= t < j ==> previous@[t] == t,
        decreases m + 1 - j,
    {
        previous.push(j);
        j += 1;
    }
    proof {
        assert forall|t: int| 0 <= t <= m implies previous@[t] == edit_distance(
            sa.take(0),
            sb.take(t),
        ) by {
            lemma_edit_distance_empty(sa, sb, 0, t);
        }
    }
    let mut i: usize = 1;
    while i <= a.len()
        invariant
            1 <= i <= a@.len() + 1,
            a@.len() < usize::MAX,
            sa == views(a@),
            sb == views(b@).subrange(from as int, to as int),
            from <= to <= b@.len(),
            m == sb.len(),
            m < usize::MAX,
            previous@.len() == m + 1,
            forall|t: int|
                0 <= t <= m ==> previous@[t] == edit_distance(sa.take(i - 1), sb.take(t)),
        decreases a.len() + 1 - i,
    {
        let mut current: Vec<usize> = Vec::new();
        current.push(i);
        proof {
            lemma_edit_distance_empty(sa, sb, i as int, 0);
        }
        let mut j: usize = 1;
        while j <= m
            invariant
                1 <= i <= a@.len(),
                1 <= j <= m + 1,
                a@.len() < usize::MAX,
                sa == views(a@),
                sb == views(b@).subrange(from as int, to as int),
                from <= to <= b@.len(),
                m == sb.len(),
                m < usize::MAX,
                previous@.len() == m + 1,
                forall|t: int|
                    0 <= t <= m ==> previous@[t] == edit_distance(sa.take(i - 1), sb.take(t)),
                current@.len() == j,
                forall|t: int|
                    0 <= t < j ==> current@[t] == edit_distance(sa.take(i as int), sb.take(t)),
            decreases m + 1 - j,
        {
            let same = chars_eq(a[i - 1].as_slice(), b[from + j - 1].as_slice());
            proof {
                lemma_edit_distance_step(sa, sb, i as int, j as int);
                lemma_edit_distance_le_max(sa.take(i - 1), sb.take(j - 1));
                lemma_edit_distance_le_max(sa.take(i - 1), sb.take(j as int));
                lemma_edit_distance_le_max(sa.take(i as int), sb.take(j - 1));
                assert(sa[i - 1] == a@[i - 1]@);
                assert(sb[j - 1] == b@[from + j - 1]@);
            }
            let sub = previous[j - 1] + if same {
                0
            } else {
                1
            };
            let del = previous[j] + 1;
            let ins = current[j - 1] + 1;
            let mut best = sub;
            if del < best {
                best = del;
            }
            if ins < best {
                best = ins;
            }
            current.push(best);
            j += 1;
        }
        previous = current;
        i += 1;
    }
    proof {
        assert(sa.take(a@.len() as int) =~= sa);
        assert(sb.take(m as int) =~= sb);
    }
    previous[m]
}


/// The full cost table of aligning the keys `ka` with the keys `kb` (see
/// `cell`).
fn cost_table(ka: &Vec<Vec<char>>, kb: &Vec<Vec<char>>) -> (r: Vec<Vec<u128>>)
    requires
        ka@.len() < usize::MAX,
        kb@.len() < usize::MAX,
    ensures
        r@.len() == ka@.len() + 1,
        forall|i: int| 0 <= i <= ka@.len() ==> (#[trigger] r@[i])@.len() == kb@.len() + 1,
        forall|i: int, j: int|
            #![trigger r@[i]@[j]]
            0 <= i <= ka@.len() && 0 <= j <= kb@.len() ==> r@[i]@[j]
                == indel_distance(views(ka@).take(i), views(kb@).take(j)) && r@[i]@[j] <= i + j,
{
    let ghost sa = views(ka@);
    let ghost sb = views(kb@);
    let n = ka.len();
    let m = kb.len();
    let mut table: Vec<Vec<u128>> = Vec::new();
    let mut first: Vec<u128> = Vec::new();
    let mut j: usize = 0;
    while j <= m
        invariant
            j <= m + 1,
            m == sb.len(),
            m < usize::MAX,
            first@.len() == j,
            forall|t: int| 0 <= t < j ==> first@[t] == indel_distance(sa.take(0), sb.take(t)),
        decreases m + 1 - j,
    {
        proof {
            lemma_indel_empty(sa, sb, 0, j as int);
        }
        first.push(j as u128);
        j += 1;
    }
    table.push(first);
    let mut i: usize = 1;
    while i <= n
        invariant
            1 <= i <= n + 1,
            n == sa.len(),
            m == sb.len(),
            n < usize::MAX,
            m < usize::MAX,
            sa == views(ka@),
            sb == views(kb@),
            table@.len() == i,
            forall|r: int| 0 <= r < i ==> (#[trigger] table@[r])@.len() == m + 1,
            forall|r: int, t: int|
                #![trigger table@[r]@[t]]
                0 <= r < i && 0 <= t <= m ==> table@[r]@[t] == indel_distance(
                    sa.take(r),
                    sb.take(t),
                ),
        decreases n + 1 - i,
    {
        let mut current: Vec<u128> = Vec::new();
        proof {
            lemma_indel_empty(sa, sb, i as int, 0);
        }
        current.push(i as u128);
        let mut j: usize = 1;
        while j <= m
            invariant
                1 <= i <= n,
                1 <= j <= m + 1,
                n == sa.len(),
                m == sb.len(),
                n < usize::MAX,
                m < usize::MAX,
                sa == views(ka@),
                sb == views(kb@),
                table@.len() == i,
                forall|r: int| 0 <= r < i ==> (#[trigger] table@[r])@.len() == m + 1,
                forall|r: int, t: int|
                    #![trigger table@[r]@[t]]
                    0 <= r < i && 0 <= t <= m ==> table@[r]@[t] == indel_distance(
                        sa.take(r),
                        sb.take(t),
                    ),
                current@.len() == j,
                forall|t: int|
                    0 <= t < j ==> current@[t] == indel_distance(sa.take(i as int), sb.take(t)),
            decreases m + 1 - j,
        {
            let same = chars_eq(ka[i - 1].as_slice(), kb[j - 1].as_slice());
            proof {
                lemma_indel_step(sa, sb, i as int, j as int);
                lemma_indel_le_sum(sa.take(i - 1), sb.take(j - 1));
                lemma_indel_le_sum(sa.take(i - 1), sb.take(j as int));
                lemma_indel_le_sum(sa.take(i as int), sb.take(j - 1));
                assert(table@[i - 1]@[j - 1] == indel_distance(sa.take(i - 1), sb.take(j - 1)));
                assert(table@[i - 1]@[j as int] == indel_distance(sa.take(i - 1), sb.take(j as int)));
            }
            let sub = table[i - 1][j - 1] + if same {
                0
            } else {
                2
            };
            let del = table[i - 1][j] + 1;
            let ins = current[j - 1] + 1;
            let mut best = sub;
            if del < best {
                best = del;
            }
            if ins < best {
                best = ins;
            }
            current.push(best);
            j += 1;
        }
        table.push(current);
        i += 1;
    }
    proof {
        assert forall|i: int, j: int|
            #![trigger table@[i]@[j]]
            0 <= i <= ka@.len() && 0 <= j <= kb@.len() implies table@[i]@[j] <= i + j by {
            lemma_indel_le_sum(sa.take(i), sb.take(j));
        }
    }
    table
}

/// Align two token sequences, cheapest edit script first, comparing tokens by
/// their punctuation-free core. The steps carry the tokens as given.
#[verifier::spinoff_prover]
fn align_tokens(a: &Vec<Vec<char>>, b: &Vec<Vec<char>>) -> (r: Vec<Op>)
    requires
        a@.len() < usize::MAX,
        b@.len() < usize::MAX,
    ensures
        r@.map_values(|o: Op| o@) == align_spec(views(a@), views(b@)),
{
    let ghost sa = views(a@);
    let ghost sb = views(b@);
    let ka = keys_of(a);
    let kb = keys_of(b);
    let cost = cost_table(&ka, &kb);
    proof {
        assert forall|i: int, j: int|
            #![trigger cost@[i]@[j]]
            0 <= i <= a@.len() && 0 <= j <= b@.len() implies cost@[i]@[j] == cell(
            sa,
            sb,
            i,
            j,
        ) && cost@[i]@[j] <= i + j by {
            assert(views(ka@) == keys(sa));
        }
    }
    let mut steps: VecDeque<Op> = VecDeque::new();
    let mut i: usize = a.len();
    let mut j: usize = b.len();
    while i > 0 || j > 0
        invariant
            i <= a@.len(),
            j <= b@.len(),
            sa == views(a@),
            sb == views(b@),
            views(ka@) == keys(sa),
            views(kb@) == keys(sb),
            ka@.len() == a@.len(),
            kb@.len() == b@.len(),
            cost@.len() == a@.len() + 1,
            forall|r: int| 0 <= r <= a@.len() ==> (#[trigger] cost@[r])@.len() == b@.len() + 1,
            forall|r: int, t: int|
                #![trigger cost@[r]@[t]]
                0 <= r <= a@.len() && 0 <= t <= b@.len() ==> cost@[r]@[t] == cell(
                    sa,
                    sb,
                    r,
                    t,
                ) && cost@[r]@[t] <= r + t,
            align_spec(sa, sb) == trace(sa, sb, i as nat, j as nat) + steps@.map_values(
                |o: Op| o@,
            ),
        decreases i + j,
    {
        let ghost before = steps@.map_values(|o: Op| o@);
        if i > 0 && j > 0 {
            let same = chars_eq(ka[i - 1].as_slice(), kb[j - 1].as_slice());
            proof {
                assert(views(ka@)[i - 1] == ka@[i - 1]@);
                assert(views(kb@)[j - 1] == kb@[j - 1]@);
            }
            if cost[i][j] == cost[i - 1][j - 1] + if same {
                0
            } else {
                2
            } {
                let step = if same {
                    Op::Keep(i - 1, j - 1)
                } else {
                    Op::Replace(
                        string_from_chars(a[i - 1].as_slice()),
                        string_from_chars(b[j - 1].as_slice()),
                    )
                };
                let ghost sv = step@;
                steps.push_front(step);
                proof {
                    assert(sa[i - 1] == a@[i - 1]@);
                    assert(sb[j - 1] == b@[j - 1]@);
                    assert(steps@.map_values(|o: Op| o@) =~= seq![sv] + before);
                    assert(trace(sa, sb, i as nat, j as nat) == trace(
                        sa,
                        sb,
                        (i - 1) as nat,
                        (j - 1) as nat,
                    ).push(sv));
                }
                i -= 1;
                j -= 1;
                continue;
            }
        }
        if i > 0 && cost[i][j] == cost[i - 1][j] + 1 {
            let step = Op::Delete(string_from_chars(a[i - 1].as_slice()));
            let ghost sv = step@;
            steps.push_front(step);
            proof {
                assert(sa[i - 1] == a@[i - 1]@);
                assert(steps@.map_values(|o: Op| o@) =~= seq![sv] + before);
                assert(trace(sa, sb, i as nat, j as nat) == trace(sa, sb, (i - 1) as nat, j as nat).push(sv));
            }
            i -= 1;
            continue;
        }
        proof {
            if j == 0 {
                lemma_indel_empty(keys(sa), keys(sb), i as int, 0);
                lemma_indel_empty(keys(sa), keys(sb), i - 1, 0);
            }
        }
        let step = Op::Insert(string_from_chars(b[j - 1].as_slice()));
        let ghost sv = step@;
        steps.push_front(step);
        proof {
            assert(sb[j - 1] == b@[j - 1]@);
            assert(steps@.map_values(|o: Op| o@) =~= seq![sv] + before);
            assert(trace(sa, sb, i as nat, j as nat) == trace(sa, sb, i as nat, (j - 1) as nat).push(sv));
        }
        j -= 1;
    }
    proof {
        assert(trace(sa, sb, 0, 0) =~= Seq::<AlignStep>::empty());
        assert(align_spec(sa, sb) =~= steps@.map_values(|o: Op| o@));
    }
    let mut out: Vec<Op> = Vec::new();
    while steps.len() > 0
        invariant
            out@.map_values(|o: Op| o@) + steps@.map_values(|o: Op| o@) == align_spec(sa, sb),
        decreases steps@.len(),
    {
        let ghost before_out = out@.map_values(|o: Op| o@);
        let ghost before_steps = steps@.map_values(|o: Op| o@);
        let step = steps.pop_front().unwrap();
        let ghost sv = step@;
        out.push(step);
        proof {
            assert(out@.map_values(|o: Op| o@) =~= before_out.push(sv));
            assert(steps@.map_values(|o: Op| o@) =~= before_steps.drop_first());
            assert(before_out.push(sv) + before_steps.drop_first() =~= before_out + before_steps);
        }
    }
    proof {
        assert(steps@.map_values(|o: Op| o@) =~= Seq::<AlignStep>::empty());
        assert(out@.map_values(|o: Op| o@) + Seq::<AlignStep>::empty() =~= out@.map_values(
            |o: Op| o@,
        ));
    }
    out
}


/// The shortest window of the edited words that may be compared with `p`
/// pasted words.
pub open spec fn window_lower(p: int) -> int {
    if p * 3 / 5 >= 1 {
        p * 3 / 5
    } else {
        1
    }
}

/// The longest window of `n` edited words that may be compared with `p`
/// pasted words.
pub open spec fn window_upper(p: int, n: int) -> int {
    if p * 7 / 5 + 1 <= n {
        p * 7 / 5 + 1
    } else {
        n
    }
}

/// Words `s..s + l` of `n` edited words form a window for `p` pasted words.
pub open spec fn is_window(p: int, n: int, s: int, l: int) -> bool {
    0 <= s < n && window_lower(p) <= l <= window_upper(p, n) && s + l <= n
}

/// How far a window of the edited words is from the pasted words.
pub open spec fn window_cost(pasted: Seq<Seq<char>>, edited: Seq<Seq<char>>, s: int, l: int) -> nat {
    word_dist(pasted, edited.subrange(s, s + l))
}

/// The window `(s, l)` is the cheapest, and the first of the cheapest when
/// windows are ordered by start and then by length.
pub open spec fn is_best_window(
    pasted: Seq<Seq<char>>,
    edited: Seq<Seq<char>>,
    s: int,
    l: int,
) -> bool {
    &&& is_window(pasted.len() as int, edited.len() as int, s, l)
    &&& forall|s2: int, l2: int|
        #![trigger window_cost(pasted, edited, s2, l2)]
        is_window(pasted.len() as int, edited.len() as int, s2, l2) ==> window_cost(
            pasted,
            edited,
            s2,
            l2,
        ) >= window_cost(pasted, edited, s, l) && ((s2 < s || (s2 == s && l2 < l))
            ==> window_cost(pasted, edited, s2, l2) > window_cost(pasted, edited, s, l))
}

/// The run of edited words that corresponds to the pasted words, as a range
/// of word indices: the best window, unless nothing is close enough (more
/// than half of the pasted words would have to change) or the field is empty
/// or too large to scan.
pub open spec fn region(pasted: Seq<Seq<char>>, edited: Seq<Seq<char>>) -> Option<(int, int)> {
    if pasted.len() == 0 || edited.len() == 0 || edited.len() > MAX_FIELD_TOKENS {
        None
    } else if exists|s: int, l: int| is_best_window(pasted, edited, s, l) {
        let (s, l) = choose|s: int, l: int| is_best_window(pasted, edited, s, l);
        if window_cost(pasted, edited, s, l) * 2 > pasted.len() {
            None
        } else {
            Some((s, s + l))
        }
    } else {
        None
    }
}

/// There is at most one best window.
pub proof fn lemma_best_window_unique(
    pasted: Seq<Seq<char>>,
    edited: Seq<Seq<char>>,
    s1: int,
    l1: int,
    s2: int,
    l2: int,
)
    requires
        is_best_window(pasted, edited, s1, l1),
        is_best_window(pasted, edited, s2, l2),
    ensures
        s1 == s2 && l1 == l2,
{
    let c1 = window_cost(pasted, edited, s1, l1);
    let c2 = window_cost(pasted, edited, s2, l2);
    assert(c1 >= c2);
    assert(c2 >= c1);
}

/// The window `(s2, l2)` comes before position `(start, length)` of the scan.
pub open spec fn scanned(s2: int, l2: int, start: int, length: int) -> bool {
    s2 < start || (s2 == start && l2 < length)
}

/// What the scan of windows knows after every window before
/// `(start, length)`.
pub open spec fn scan_inv(
    pasted: Seq<Seq<char>>,
    edited: Seq<Seq<char>>,
    start: int,
    length: int,
    best: Option<(usize, usize, usize)>,
) -> bool {
    let p = pasted.len() as int;
    let n = edited.len() as int;
    &&& forall|s2: int, l2: int|
        #![trigger window_cost(pasted, edited, s2, l2)]
        is_window(p, n, s2, l2) && scanned(s2, l2, start, length) ==> window_cost(
            pasted,
            edited,
            s2,
            l2,
        ) > 0
    &&& match best {
        None => forall|s2: int, l2: int|
            #![trigger is_window(p, n, s2, l2)]
            is_window(p, n, s2, l2) ==> !scanned(s2, l2, start, length),
        Some((bs, bl, bd)) => {
            &&& is_window(p, n, bs as int, bl as int)
            &&& scanned(bs as int, bl as int, start, length)
            &&& bd == window_cost(pasted, edited, bs as int, bl as int)
            &&& forall|s2: int, l2: int|
                #![trigger window_cost(pasted, edited, s2, l2)]
                is_window(p, n, s2, l2) && scanned(s2, l2, start, length) ==> window_cost(
                    pasted,
                    edited,
                    s2,
                    l2,
                ) >= bd && ((s2 < bs || (s2 == bs && l2 < bl)) ==> window_cost(
                    pasted,
                    edited,
                    s2,
                    l2,
                ) > bd)
        },
    }
}

/// Find the run of `edited` words that corresponds to the `pasted` words.
///
/// Every window of plausible length is scored by word-level edit distance and
/// the cheapest (the first of the cheapest) wins; an exact match ends the
/// search at once. `None` when nothing resembles the pasted words closely
/// enough to be them.
pub fn locate_region(pasted: &Vec<Vec<char>>, edited: &Vec<Vec<char>>) -> (r: Option<(usize, usize)>)
    requires
        pasted@.len() < usize::MAX,
    ensures
        match r {
            Some((s, e)) => region(views(pasted@), views(edited@)) == Some((s as int, e as int)),
            None => region(views(pasted@), views(edited@)) is None,
        },
{
    let ghost sp = views(pasted@);
    let ghost se = views(edited@);
    let p = pasted.len();
    let n = edited.len();
    if p == 0 || n == 0 || n > MAX_FIELD_TOKENS {
        return None;
    }
    let ka = keys_of(pasted);
    let ke = keys_of(edited);
    let lower: usize = if p > 10000 {
        n + 1
    } else if p * 3 / 5 >= 1 {
        p * 3 / 5
    } else {
        1
    };
    assert(lower <= 6001);
    let upper: usize = if p >= 4000 {
        n
    } else if p * 7 / 5 + 1 <= n {
        p * 7 / 5 + 1
    } else {
        n
    };
    assert(upper == window_upper(p as int, n as int));
    assert(lower == window_lower(p as int) || (lower > n && window_lower(p as int) > n));
    let mut best: Option<(usize, usize, usize)> = None;
    let mut start: usize = 0;
    while start < n
        invariant
            start <= n,
            p == sp.len(),
            n == se.len(),
            0 < p < usize::MAX,
            0 < n <= MAX_FIELD_TOKENS,
            sp == views(pasted@),
            se == views(edited@),
            views(ka@) == keys(sp),
            views(ke@) == keys(se),
            ka@.len() == p,
            ke@.len() == n,
            upper == window_upper(p as int, n as int),
            upper <= n,
            lower == window_lower(p as int) || (lower > n && window_lower(p as int) > n),
            lower <= 6001,
            scan_inv(sp, se, start as int, 0, best),
        decreases n - start,
    {
        let mut length: usize = lower;
        proof {
            assert forall|s2: int, l2: int|
                is_window(p as int, n as int, s2, l2) && scanned(
                    s2,
                    l2,
                    start as int,
                    length as int,
                ) implies scanned(s2, l2, start as int, 0) by {}
        }
        while length <= upper && start + length <= n
            invariant
                start < n,
                p == sp.len(),
                n == se.len(),
                0 < p < usize::MAX,
                0 < n <= MAX_FIELD_TOKENS,
                sp == views(pasted@),
                se == views(edited@),
                views(ka@) == keys(sp),
                views(ke@) == keys(se),
                ka@.len() == p,
                ke@.len() == n,
                upper == window_upper(p as int, n as int),
                upper <= n,
                lower == window_lower(p as int) || (lower > n && window_lower(p as int) > n),
                lower <= length <= 6001,
                scan_inv(sp, se, start as int, length as int, best),
            decreases upper + 1 - length,
        {
            let end = start + length;
            let distance = word_distance(&ka, &ke, start, end);
            proof {
                assert(keys(se.subrange(start as int, end as int)) =~= keys(se).subrange(
                    start as int,
                    end as int,
                ));
                assert(distance == window_cost(sp, se, start as int, length as int));
                assert(is_window(p as int, n as int, start as int, length as int));
            }
            let replace = match best {
                None => true,
                Some((_, _, bd)) => distance < bd,
            };
            if replace {
                best = Some((start, length, distance));
            }
            if distance == 0 {
                proof {
                    assert forall|s2: int, l2: int|
                        #![trigger window_cost(sp, se, s2, l2)]
                        is_window(p as int, n as int, s2, l2) implies window_cost(sp, se, s2, l2)
                        >= window_cost(sp, se, start as int, length as int) && ((s2 < start || (
                        s2 == start && l2 < length)) ==> window_cost(sp, se, s2, l2)
                        > window_cost(sp, se, start as int, length as int)) by {
                        if s2 < start || (s2 == start && l2 < length) {
                            assert(scanned(s2, l2, start as int, length as int));
                        }
                    }
                    assert(is_best_window(sp, se, start as int, length as int));
                    let (cs, cl) = choose|s: int, l: int| is_best_window(sp, se, s, l);
                    lemma_best_window_unique(sp, se, cs, cl, start as int, length as int);
                }
                return Some((start, end));
            }
            proof {
                let next = length + 1;
                assert forall|s2: int, l2: int|
                    #![trigger window_cost(sp, se, s2, l2)]
                    is_window(p as int, n as int, s2, l2) && scanned(
                        s2,
                        l2,
                        start as int,
                        next as int,
                    ) implies window_cost(sp, se, s2, l2) > 0 by {
                    if !scanned(s2, l2, start as int, length as int) {
                        assert(s2 == start && l2 == length);
                    }
                }
            }
            length += 1;
        }
        proof {
            let next = start + 1;
            assert(length > upper || start + length > n);
            assert forall|s2: int, l2: int|
                is_window(p as int, n as int, s2, l2) && scanned(
                    s2,
                    l2,
                    next as int,
                    0,
                ) implies scanned(s2, l2, start as int, length as int) by {}
        }
        start += 1;
    }
    match best {
        None => {
            proof {
                assert forall|s: int, l: int| !is_best_window(sp, se, s, l) by {
                    if is_window(p as int, n as int, s, l) {
                        assert(scanned(s, l, n as int, 0));
                    }
                }
            }
            None
        },
        Some((bs, bl, bd)) => {
            proof {
                assert forall|s2: int, l2: int|
                    #![trigger window_cost(sp, se, s2, l2)]
                    is_window(p as int, n as int, s2, l2) implies window_cost(sp, se, s2, l2)
                    >= window_cost(sp, se, bs as int, bl as int) && ((s2 < bs || (s2 == bs && l2
                    < bl)) ==> window_cost(sp, se, s2, l2) > window_cost(
                    sp,
                    se,
                    bs as int,
                    bl as int,
                )) by {
                    assert(scanned(s2, l2, n as int, 0));
                }
                assert(is_best_window(sp, se, bs as int, bl as int));
                let (cs, cl) = choose|s: int, l: int| is_best_window(sp, se, s, l);
                lemma_best_window_unique(sp, se, cs, cl, bs as int, bl as int);
            }
            if bd > p / 2 {
                None
            } else {
                Some((bs, bs + bl))
            }
        },
    }
}


/// An apostrophe (straight or curly) or a hyphen: allowed inside a word.
pub open spec fn is_joiner(c: char) -> bool {
    c == '\'' || c == '\u{2019}' || c == '-'
}

/// Whether a token is the kind of thing a dictionary should hold: letters,
/// with joiners allowed only strictly inside, and at least one letter.
pub open spec fn learnable(w: Seq<char>) -> bool {
    &&& exists|i: int| 0 <= i < w.len() && char_is_alphabetic(#[trigger] w[i])
    &&& forall|i: int|
        0 <= i < w.len() ==> char_is_alphabetic(#[trigger] w[i]) || (is_joiner(w[i]) && 0 < i
            < w.len() - 1)
}

/// Decides `learnable`.
pub fn is_learnable_word(word: &[char]) -> (r: bool)
    ensures
        r == learnable(word@),
{
    let n = word.len();
    let mut has_letter = false;
    let mut index: usize = 0;
    while index < n
        invariant
            n == word@.len(),
            index <= n,
            has_letter == exists|i: int| 0 <= i < index && char_is_alphabetic(#[trigger] word@[i]),
            forall|i: int|
                0 <= i < index ==> char_is_alphabetic(#[trigger] word@[i]) || (is_joiner(word@[i])
                    && 0 < i < n - 1),
        decreases n - index,
    {
        let ch = word[index];
        if is_alphabetic(ch) {
            has_letter = true;
            index += 1;
            continue;
        }
        let joiner = ch == '\'' || ch == '\u{2019}' || ch == '-';
        if joiner && index > 0 && index < n - 1 {
            proof {
                assert(has_letter == exists|i: int|
                    0 <= i < index + 1 && char_is_alphabetic(#[trigger] word@[i]));
            }
            index += 1;
            continue;
        }
        return false;
    }
    has_letter
}

/// The largest of two lengths.
pub open spec fn max_len(a: nat, b: nat) -> nat {
    if a >= b {
        a
    } else {
        b
    }
}

/// Two words are close enough for one to be a correction of the other: the
/// normalised Levenshtein similarity of their lowercase forms,
/// `1 - distance / longer length`, is at least `MIN_SIMILARITY_NUM /
/// MIN_SIMILARITY_DEN`. Two empty words are identical.
pub open spec fn similar_enough(a: Seq<char>, b: Seq<char>) -> bool {
    let la = lowercase(a);
    let lb = lowercase(b);
    let m = max_len(la.len(), lb.len());
    m == 0 || (m - edit_distance(la, lb)) * MIN_SIMILARITY_DEN >= MIN_SIMILARITY_NUM * m
}

/// Calls `strsim::levenshtein`, which counts the fewest single-character
/// insertions, deletions and substitutions between the two strings.
#[verifier::external_body]
fn levenshtein(a: &str, b: &str) -> (r: usize)
    ensures
        r == edit_distance(a@, b@),
{
    strsim::levenshtein(a, b)
}

/// Decides `similar_enough`.
fn is_similar_enough(a: &str, b: &str) -> (r: bool)
    ensures
        r == similar_enough(a@, b@),
{
    let la = to_lowercase(a);
    let lb = to_lowercase(b);
    let ca = chars_of(la.as_str());
    let cb = chars_of(lb.as_str());
    let m = if ca.len() >= cb.len() {
        ca.len()
    } else {
        cb.len()
    };
    if m == 0 {
        return true;
    }
    let d = levenshtein(la.as_str(), lb.as_str());
    proof {
        lemma_edit_distance_le_max(la@, lb@);
    }
    ((m - d) as u128) * (MIN_SIMILARITY_DEN as u128) >= (MIN_SIMILARITY_NUM as u128) * (m as u128)
}

/// One word the user corrected, and what they corrected it to.
#[derive(Clone, Debug, PartialEq, Eq)]
pub struct Correction {
    /// What the recogniser produced.
    pub from: String,
    /// What the user replaced it with. This is what gets learned.
    pub to: String,
}

impl View for Correction {
    type V = (Seq<char>, Seq<char>);

    open spec fn view(&self) -> (Seq<char>, Seq<char>) {
        (self.from@, self.to@)
    }
}

/// Whether one word replacing another is a correction worth learning, and
/// the correction (both words without their surrounding punctuation) if so.
pub open spec fn evaluate_spec(from: Seq<char>, to: Seq<char>) -> Option<(Seq<char>, Seq<char>)> {
    let f = core_of(from);
    let t = core_of(to);
    if t.len() < MIN_WORD_LEN || t.len() > MAX_WORD_LEN || f.len() < MIN_WORD_LEN {
        None
    } else if f == t || !learnable(t) || !learnable(f) {
        None
    } else if lowercase(f) != lowercase(t) && !similar_enough(f, t) {
        None
    } else {
        Some((f, t))
    }
}

/// The view of an optional correction.
pub open spec fn opt_view(c: Option<Correction>) -> Option<(Seq<char>, Seq<char>)> {
    match c {
        Some(c) => Some(c@),
        None => None,
    }
}

/// Whether `to` replacing `from` is a correction worth learning.
///
/// Both words are taken without their surrounding punctuation. The
/// replacement must be between `MIN_WORD_LEN` and `MAX_WORD_LEN` characters,
/// the original at least `MIN_WORD_LEN`; they must differ; both must look like
/// words; and unless they differ only in case, they must be similar enough.
pub fn evaluate(from: &str, to: &str) -> (r: Option<Correction>)
    ensures
        opt_view(r) == evaluate_spec(from@, to@),
{
    let fc = chars_of(from);
    let tc = chars_of(to);
    let ft = trim_word(fc.as_slice());
    let tt = trim_word(tc.as_slice());
    if tt.len() < MIN_WORD_LEN || tt.len() > MAX_WORD_LEN {
        return None;
    }
    if ft.len() < MIN_WORD_LEN {
        return None;
    }
    if chars_eq(ft.as_slice(), tt.as_slice()) {
        return None;
    }
    if !is_learnable_word(tt.as_slice()) {
        return None;
    }
    if !is_learnable_word(ft.as_slice()) {
        return None;
    }
    let fs = string_from_chars(ft.as_slice());
    let ts = string_from_chars(tt.as_slice());
    let fl = chars_of(to_lowercase(fs.as_str()).as_str());
    let tl = chars_of(to_lowercase(ts.as_str()).as_str());
    let case_only = chars_eq(fl.as_slice(), tl.as_slice());
    if !case_only && !is_similar_enough(fs.as_str(), ts.as_str()) {
        return None;
    }
    Some(Correction { from: fs, to: ts })
}

/// The whitespace-separated tokens of `text`.
fn tokenize(text: &str) -> (r: Vec<Vec<char>>)
    ensures
        views(r@) == words(text@),
{
    let c = chars_of(text);
    split_whitespace(c.as_slice())
}

/// The views of some string slices.
pub open spec fn str_views(v: Seq<&str>) -> Seq<Seq<char>> {
    v.map_values(|x: &str| x@)
}

/// The characters of each string slice.
fn chars_of_each(v: &[&str]) -> (r: Vec<Vec<char>>)
    ensures
        views(r@) == str_views(v@),
{
    let mut out: Vec<Vec<char>> = Vec::new();
    let mut i: usize = 0;
    while i < v.len()
        invariant
            i <= v@.len(),
            views(out@) == str_views(v@).take(i as int),
        decreases v.len() - i,
    {
        let c = chars_of(v[i]);
        let ghost before = views(out@);
        out.push(c);
        proof {
            assert(views(out@) =~= before.push(c@));
            assert(str_views(v@).take(i + 1) =~= str_views(v@).take(i as int).push(v@[i as int]@));
        }
        i += 1;
    }
    proof {
        assert(str_views(v@).take(v@.len() as int) =~= str_views(v@));
    }
    out
}

/// Align two word sequences, cheapest edit script first (see `align_spec`).
///
/// Words are compared by their punctuation-free core, so attached punctuation
/// is no change; the steps carry the words as given. A substitution weighs
/// as much as an insertion and a deletion together, and a tie between the
/// two goes to the substitution.
pub fn align(original: &[&str], current: &[&str]) -> (r: Vec<Op>)
    requires
        original@.len() < usize::MAX,
        current@.len() < usize::MAX,
    ensures
        r@.map_values(|o: Op| o@) == align_spec(str_views(original@), str_views(current@)),
{
    let a = chars_of_each(original);
    let b = chars_of_each(current);
    align_tokens(&a, &b)
}

/// How many steps of an alignment change something.
pub open spec fn changes(steps: Seq<AlignStep>) -> nat
    decreases steps.len(),
{
    if steps.len() == 0 {
        0
    } else {
        changes(steps.drop_last()) + if steps.last() is Keep {
            0nat
        } else {
            1nat
        }
    }
}

/// The lowercase forms of what the corrections teach.
pub open spec fn taught(cs: Seq<(Seq<char>, Seq<char>)>) -> Seq<Seq<char>> {
    cs.map_values(|c: (Seq<char>, Seq<char>)| lowercase(c.1))
}

/// The corrections gathered from some alignment steps, in order: each
/// replacement that `evaluate_spec` accepts, unless its lowercase form is
/// already known or already taught, until `MAX_PER_DICTATION` are found.
pub open spec fn gather(steps: Seq<AlignStep>, known: Seq<Seq<char>>) -> Seq<(Seq<char>, Seq<char>)>
    decreases steps.len(),
{
    if steps.len() == 0 {
        Seq::empty()
    } else {
        let prev = gather(steps.drop_last(), known);
        if prev.len() >= MAX_PER_DICTATION {
            prev
        } else {
            match steps.last() {
                AlignStep::Replace(f, t) => match evaluate_spec(f, t) {
                    Some(c) => if known.contains(lowercase(c.1)) || taught(prev).contains(
                        lowercase(c.1),
                    ) {
                        prev
                    } else {
                        prev.push(c)
                    },
                    None => prev,
                },
                _ => prev,
            }
        }
    }
}

/// What an edit teaches: the corrections between the pasted words and the
/// region of the edited text that holds them, or nothing when the region is
/// not found or the edit changed more than `MAX_EDIT_NUM / MAX_EDIT_DEN` of
/// the pasted words.
pub open spec fn detect_spec(pasted: Seq<char>, edited: Seq<char>, known: Seq<Seq<char>>) -> Seq<
    (Seq<char>, Seq<char>),
> {
    let p = words(pasted);
    let e = words(edited);
    match region(p, e) {
        None => Seq::empty(),
        Some((s, t)) => {
            let steps = align_spec(p, e.subrange(s, t));
            if changes(steps) * MAX_EDIT_DEN > MAX_EDIT_NUM * p.len() {
                Seq::empty()
            } else {
                gather(steps, known)
            }
        },
    }
}

/// Once the cap is reached, later steps add nothing.
proof fn lemma_gather_saturated(steps: Seq<AlignStep>, known: Seq<Seq<char>>, k: int)
    requires
        0 <= k <= steps.len(),
        gather(steps.take(k), known).len() >= MAX_PER_DICTATION,
    ensures
        gather(steps, known) == gather(steps.take(k), known),
    decreases steps.len() - k,
{
    if k < steps.len() {
        assert(steps.take(k + 1).drop_last() =~= steps.take(k));
        lemma_gather_saturated(steps, known, k + 1);
    } else {
        assert(steps.take(k) =~= steps);
    }
}

/// The strings' views.
pub open spec fn string_views(v: Seq<String>) -> Seq<Seq<char>> {
    v.map_values(|x: String| x@)
}

/// The characters of each string.
fn chars_of_strings(v: &[String]) -> (r: Vec<Vec<char>>)
    ensures
        views(r@) == string_views(v@),
{
    let mut out: Vec<Vec<char>> = Vec::new();
    let mut i: usize = 0;
    while i < v.len()
        invariant
            i <= v@.len(),
            views(out@) == string_views(v@).take(i as int),
        decreases v.len() - i,
    {
        let c = chars_of(v[i].as_str());
        let ghost before = views(out@);
        out.push(c);
        proof {
            assert(views(out@) =~= before.push(c@));
            assert(string_views(v@).take(i + 1) =~= string_views(v@).take(i as int).push(
                v@[i as int]@,
            ));
        }
        i += 1;
    }
    proof {
        assert(string_views(v@).take(v@.len() as int) =~= string_views(v@));
    }
    out
}

/// Whether `w` is one of `list`.
fn contains_word(list: &Vec<Vec<char>>, w: &[char]) -> (r: bool)
    ensures
        r == views(list@).contains(w@),
{
    let mut i: usize = 0;
    while i < list.len()
        invariant
            i <= list@.len(),
            forall|t: int| 0 <= t < i ==> views(list@)[t] != w@,
        decreases list.len() - i,
    {
        if chars_eq(list[i].as_slice(), w) {
            assert(views(list@)[i as int] == w@);
            return true;
        }
        i += 1;
    }
    false
}

/// Words `from..to` of `v`.
fn sub_tokens(v: &Vec<Vec<char>>, from: usize, to: usize) -> (r: Vec<Vec<char>>)
    requires
        from <= to <= v@.len(),
    ensures
        views(r@) == views(v@).subrange(from as int, to as int),
{
    let mut out: Vec<Vec<char>> = Vec::new();
    let mut i = from;
    while i < to
        invariant
            from <= i <= to <= v@.len(),
            views(out@) == views(v@).subrange(from as int, i as int),
        decreases to - i,
    {
        let w = slice_to_vec(v[i].as_slice(), 0, v[i].len());
        let ghost before = views(out@);
        out.push(w);
        proof {
            assert(v@[i as int]@.subrange(0, v@[i as int]@.len() as int) =~= v@[i as int]@);
            assert(views(out@) =~= before.push(v@[i as int]@));
            assert(views(v@).subrange(from as int, i + 1) =~= views(v@).subrange(
                from as int,
                i as int,
            ).push(views(v@)[i as int]));
        }
        i += 1;
    }
    out
}

/// The view of a list of corrections.
pub open spec fn corrections_view(v: Seq<Correction>) -> Seq<(Seq<char>, Seq<char>)> {
    v.map_values(|c: Correction| c@)
}

/// Find the corrections between what was pasted and what is there now.
///
/// `pasted` is the app's own output; `edited` is the field's current
/// contents, which may hold text from before and after the paste; the
/// comparison is scoped to the pasted region (see `locate_region`).
/// `already_known` holds the lowercase forms of the words already in the
/// dictionary. At most `MAX_PER_DICTATION` corrections are returned, in the
/// order they appear.
pub fn detect(pasted: &str, edited: &str, already_known: &[String]) -> (r: Vec<Correction>)
    requires
        pasted@.len() < usize::MAX,
    ensures
        corrections_view(r@) == detect_spec(pasted@, edited@, string_views(already_known@)),
        r@.len() <= MAX_PER_DICTATION,
{
    let ghost known = string_views(already_known@);
    let original = tokenize(pasted);
    let edited_tokens = tokenize(edited);
    proof {
        lemma_words_len(pasted@);
    }
    let located = locate_region(&original, &edited_tokens);
    let (start, end) = match located {
        None => {
            return Vec::new();
        },
        Some(range) => range,
    };
    let ghost sp = views(original@);
    let ghost se = views(edited_tokens@);
    proof {
        let (cs, cl) = choose|s: int, l: int| is_best_window(sp, se, s, l);
        assert(region(sp, se) is Some);
        assert(end <= edited_tokens@.len());
    }
    let current = sub_tokens(&edited_tokens, start, end);
    let ops = align_tokens(&original, &current);
    let ghost steps = ops@.map_values(|o: Op| o@);
    let mut changed: usize = 0;
    let mut k: usize = 0;
    while k < ops.len()
        invariant
            k <= ops@.len(),
            steps == ops@.map_values(|o: Op| o@),
            changed == changes(steps.take(k as int)),
            changed <= k,
        decreases ops.len() - k,
    {
        proof {
            assert(steps.take(k + 1).drop_last() =~= steps.take(k as int));
        }
        match &ops[k] {
            Op::Keep(_, _) => {},
            _ => {
                changed += 1;
            },
        }
        k += 1;
    }
    proof {
        assert(steps.take(ops@.len() as int) =~= steps);
    }
    if (changed as u128) * (MAX_EDIT_DEN as u128) > (MAX_EDIT_NUM as u128) * (original.len() as u128) {
        return Vec::new();
    }
    let known_words = chars_of_strings(already_known);
    let mut corrections: Vec<Correction> = Vec::new();
    let mut seen: Vec<Vec<char>> = Vec::new();
    let mut k: usize = 0;
    while k < ops.len() && corrections.len() < MAX_PER_DICTATION
        invariant
            k <= ops@.len(),
            steps == ops@.map_values(|o: Op| o@),
            views(known_words@) == known,
            corrections_view(corrections@) == gather(steps.take(k as int), known),
            views(seen@) == taught(corrections_view(corrections@)),
            corrections@.len() <= MAX_PER_DICTATION,
        decreases ops.len() - k,
    {
        let ghost prev = corrections_view(corrections@);
        proof {
            assert(steps.take(k + 1).drop_last() =~= steps.take(k as int));
            assert(steps.take(k + 1).last() == steps[k as int]);
        }
        match &ops[k] {
            Op::Replace(from, to) => {
                match evaluate(from.as_str(), to.as_str()) {
                    Some(candidate) => {
                        let lower = chars_of(to_lowercase(candidate.to.as_str()).as_str());
                        if !contains_word(&known_words, lower.as_slice()) && !contains_word(
                            &seen,
                            lower.as_slice(),
                        ) {
                            let ghost cv = candidate@;
                            corrections.push(candidate);
                            let ghost before_seen = views(seen@);
                            seen.push(lower);
                            proof {
                                assert(corrections_view(corrections@) =~= prev.push(cv));
                                assert(views(seen@) =~= before_seen.push(lowercase(cv.1)));
                                assert(taught(prev.push(cv)) =~= taught(prev).push(
                                    lowercase(cv.1),
                                ));
                            }
                        }
                    },
                    None => {},
                }
            },
            _ => {},
        }
        k += 1;
    }
    proof {
        if corrections@.len() >= MAX_PER_DICTATION {
            lemma_gather_saturated(steps, known, k as int);
        } else {
            assert(steps.take(k as int) =~= steps);
        }
    }
    corrections
}


/// What an alignment costs: nothing for a kept word, one for an inserted or
/// deleted word, two for a replaced one (an insertion and a deletion).
pub open spec fn weighted_cost(steps: Seq<AlignStep>) -> nat
    decreases steps.len(),
{
    if steps.len() == 0 {
        0
    } else {
        weighted_cost(steps.drop_last()) + match steps.last() {
            AlignStep::Keep(_, _) => 0nat,
            AlignStep::Replace(_, _) => 2nat,
            _ => 1nat,
        }
    }
}

/// Appending a step adds its cost.
proof fn lemma_cost_push(s: Seq<AlignStep>, x: AlignStep)
    ensures
        weighted_cost(s.push(x)) == weighted_cost(s) + match x {
            AlignStep::Keep(_, _) => 0nat,
            AlignStep::Replace(_, _) => 2nat,
            _ => 1nat,
        },
{
    assert(s.push(x).drop_last() =~= s);
}

/// Every change costs at least one.
proof fn lemma_changes_le_cost(s: Seq<AlignStep>)
    ensures
        changes(s) <= weighted_cost(s),
    decreases s.len(),
{
    if s.len() > 0 {
        lemma_changes_le_cost(s.drop_last());
    }
}

/// The alignment read back from the cost table costs exactly the table entry
/// it starts from.
proof fn lemma_trace_cost(a: Seq<Seq<char>>, b: Seq<Seq<char>>, i: nat, j: nat)
    requires
        i <= a.len(),
        j <= b.len(),
    ensures
        weighted_cost(trace(a, b, i, j)) == cell(a, b, i as int, j as int),
    decreases i + j,
{
    let ka = keys(a);
    let kb = keys(b);
    lemma_indel_empty(ka, kb, i as int, 0);
    lemma_indel_empty(ka, kb, 0, j as int);
    if i == 0 && j == 0 {
    } else {
        if i > 0 && j > 0 {
            lemma_indel_step(ka, kb, i as int, j as int);
        }
        if i > 0 {
            lemma_indel_empty(ka, kb, i - 1, 0);
        }
        if j > 0 {
            lemma_indel_empty(ka, kb, 0, j - 1);
        }
        let same = ka[i - 1] == kb[j - 1];
        if i > 0 && j > 0 && cell(a, b, i as int, j as int) == cell(a, b, i - 1, j - 1) + if same {
            0nat
        } else {
            2nat
        } {
            lemma_trace_cost(a, b, (i - 1) as nat, (j - 1) as nat);
            let step = if same {
                AlignStep::Keep(i - 1, j - 1)
            } else {
                AlignStep::Replace(a[i - 1], b[j - 1])
            };
            lemma_cost_push(trace(a, b, (i - 1) as nat, (j - 1) as nat), step);
        } else if i > 0 && (j == 0 || cell(a, b, i as int, j as int) == cell(a, b, i - 1, j as int)
            + 1) {
            lemma_trace_cost(a, b, (i - 1) as nat, j);
            lemma_cost_push(trace(a, b, (i - 1) as nat, j), AlignStep::Delete(a[i - 1]));
        } else {
            lemma_trace_cost(a, b, i, (j - 1) as nat);
            lemma_cost_push(trace(a, b, i, (j - 1) as nat), AlignStep::Insert(b[j - 1]));
        }
    }
}

/// The alignment is a cheapest edit script when a substitution weighs as
/// much as an insertion and a deletion together: its cost is the least cost
/// of turning the words of `a` into those of `b` (compared by their keys).
pub proof fn lemma_align_is_cheapest(a: Seq<Seq<char>>, b: Seq<Seq<char>>)
    ensures
        weighted_cost(align_spec(a, b)) == indel_distance(keys(a), keys(b)),
{
    lemma_trace_cost(a, b, a.len(), b.len());
    assert(keys(a).take(a.len() as int) =~= keys(a));
    assert(keys(b).take(b.len() as int) =~= keys(b));
}

/// The words of `a` that an alignment reads, in order: a kept word is read
/// through its index, a replaced or deleted word is carried by the step.
pub open spec fn source_side(steps: Seq<AlignStep>, a: Seq<Seq<char>>) -> Seq<Seq<char>>
    decreases steps.len(),
{
    if steps.len() == 0 {
        Seq::empty()
    } else {
        let rest = source_side(steps.drop_last(), a);
        match steps.last() {
            AlignStep::Keep(i, _) => rest.push(a[i]),
            AlignStep::Replace(f, _) => rest.push(f),
            AlignStep::Delete(f) => rest.push(f),
            AlignStep::Insert(_) => rest,
        }
    }
}

/// The words of `b` that an alignment writes, in order.
pub open spec fn target_side(steps: Seq<AlignStep>, b: Seq<Seq<char>>) -> Seq<Seq<char>>
    decreases steps.len(),
{
    if steps.len() == 0 {
        Seq::empty()
    } else {
        let rest = target_side(steps.drop_last(), b);
        match steps.last() {
            AlignStep::Keep(_, j) => rest.push(b[j]),
            AlignStep::Replace(_, t) => rest.push(t),
            AlignStep::Insert(t) => rest.push(t),
            AlignStep::Delete(_) => rest,
        }
    }
}

/// The alignment of two prefixes reads the first and writes the second.
proof fn lemma_trace_sides(a: Seq<Seq<char>>, b: Seq<Seq<char>>, i: nat, j: nat)
    requires
        i <= a.len(),
        j <= b.len(),
    ensures
        source_side(trace(a, b, i, j), a) == a.take(i as int),
        target_side(trace(a, b, i, j), b) == b.take(j as int),
    decreases i + j,
{
    let ka = keys(a);
    let kb = keys(b);
    if i == 0 && j == 0 {
        assert(a.take(0) =~= Seq::<Seq<char>>::empty());
        assert(b.take(0) =~= Seq::<Seq<char>>::empty());
    } else {
        let same = ka[i - 1] == kb[j - 1];
        if i > 0 && j > 0 && cell(a, b, i as int, j as int) == cell(a, b, i - 1, j - 1) + if same {
            0nat
        } else {
            2nat
        } {
            lemma_trace_sides(a, b, (i - 1) as nat, (j - 1) as nat);
            let prev = trace(a, b, (i - 1) as nat, (j - 1) as nat);
            let step = if same {
                AlignStep::Keep(i - 1, j - 1)
            } else {
                AlignStep::Replace(a[i - 1], b[j - 1])
            };
            assert(prev.push(step).drop_last() =~= prev);
            assert(a.take(i as int) =~= a.take(i - 1).push(a[i - 1]));
            assert(b.take(j as int) =~= b.take(j - 1).push(b[j - 1]));
        } else if i > 0 && (j == 0 || cell(a, b, i as int, j as int) == cell(a, b, i - 1, j as int)
            + 1) {
            lemma_trace_sides(a, b, (i - 1) as nat, j);
            let prev = trace(a, b, (i - 1) as nat, j);
            assert(prev.push(AlignStep::Delete(a[i - 1])).drop_last() =~= prev);
            assert(a.take(i as int) =~= a.take(i - 1).push(a[i - 1]));
        } else {
            lemma_trace_sides(a, b, i, (j - 1) as nat);
            let prev = trace(a, b, i, (j - 1) as nat);
            assert(prev.push(AlignStep::Insert(b[j - 1])).drop_last() =~= prev);
            assert(b.take(j as int) =~= b.take(j - 1).push(b[j - 1]));
        }
    }
}

/// The alignment accounts for every word: read in order, its steps give back
/// the original words, and the words it writes are the edited words.
pub proof fn lemma_align_reproduces_inputs(a: Seq<Seq<char>>, b: Seq<Seq<char>>)
    ensures
        source_side(align_spec(a, b), a) == a,
        target_side(align_spec(a, b), b) == b,
{
    lemma_trace_sides(a, b, a.len(), b.len());
    assert(a.take(a.len() as int) =~= a);
    assert(b.take(b.len() as int) =~= b);
}

/// A learnable word has a letter at each end, so no punctuation is trimmed
/// from it: it is its own comparison key.
proof fn lemma_learnable_is_own_core(w: Seq<char>)
    requires
        learnable(w),
    ensures
        core_of(w) == w,
{
    assert(w.len() > 0);
    assert(char_is_alphabetic(w[0]));
    assert(char_is_alphabetic(w[w.len() - 1]));
    assert(lead(w, CharClass::WordEdge) == 0);
    assert(w.skip(0) =~= w);
    assert(trim_start_by(w, CharClass::WordEdge) == w);
    assert(w.last() == w[w.len() - 1]);
    assert(trail(w, CharClass::WordEdge) == 0);
    assert(w.take(w.len() as int) =~= w);
}

/// A correction that `evaluate` accepts is accepted again, unchanged, when
/// its own two words are evaluated: they are already without surrounding
/// punctuation and pass the same filters.
pub proof fn lemma_accepted_correction_is_accepted_again(from: Seq<char>, to: Seq<char>)
    ensures
        evaluate_spec(from, to) matches Some(c) ==> evaluate_spec(c.0, c.1) == Some(c),
{
    if let Some(c) = evaluate_spec(from, to) {
        lemma_learnable_is_own_core(c.0);
        lemma_learnable_is_own_core(c.1);
    }
}

/// A learned correction passes every word filter: both words look like words,
/// the replacement has a learnable length, the original is long enough, they
/// differ, and they differ only in case or are similar enough.
pub open spec fn acceptable(c: (Seq<char>, Seq<char>)) -> bool {
    &&& MIN_WORD_LEN <= c.1.len() <= MAX_WORD_LEN
    &&& MIN_WORD_LEN <= c.0.len()
    &&& c.0 != c.1
    &&& learnable(c.0)
    &&& learnable(c.1)
    &&& lowercase(c.0) == lowercase(c.1) || similar_enough(c.0, c.1)
}

/// What `evaluate_spec` accepts passes every word filter.
proof fn lemma_evaluate_acceptable(f: Seq<char>, t: Seq<char>)
    ensures
        evaluate_spec(f, t) matches Some(c) ==> acceptable(c),
{
}

/// The gathered corrections respect the cap, pass the word filters, are not
/// known already, and teach each word once.
proof fn lemma_gather_props(steps: Seq<AlignStep>, known: Seq<Seq<char>>)
    ensures
        gather(steps, known).len() <= MAX_PER_DICTATION,
        forall|i: int|
            0 <= i < gather(steps, known).len() ==> acceptable(#[trigger] gather(steps, known)[i])
                && !known.contains(lowercase(gather(steps, known)[i].1)),
        forall|i: int, j: int|
            0 <= i < j < gather(steps, known).len() ==> lowercase(
                #[trigger] gather(steps, known)[i].1,
            ) != lowercase(#[trigger] gather(steps, known)[j].1),
    decreases steps.len(),
{
    if steps.len() > 0 {
        let prev = gather(steps.drop_last(), known);
        lemma_gather_props(steps.drop_last(), known);
        if prev.len() < MAX_PER_DICTATION {
            if let AlignStep::Replace(f, t) = steps.last() {
                lemma_evaluate_acceptable(f, t);
                if let Some(c) = evaluate_spec(f, t) {
                    if !known.contains(lowercase(c.1)) && !taught(prev).contains(lowercase(c.1)) {
                        let g = prev.push(c);
                        assert(gather(steps, known) == g);
                        assert forall|i: int, j: int|
                            0 <= i < j < g.len() implies lowercase(#[trigger] g[i].1) != lowercase(
                            #[trigger] g[j].1,
                        ) by {
                            if j == prev.len() {
                                assert(taught(prev)[i] == lowercase(prev[i].1));
                            }
                        }
                    }
                }
            }
        }
    }
}

/// What an edit teaches is bounded and clean: at most `MAX_PER_DICTATION`
/// corrections, each passing every word filter, none already known, and no
/// word taught twice (in any casing).
pub proof fn lemma_detect_learns_new_words_once(
    pasted: Seq<char>,
    edited: Seq<char>,
    known: Seq<Seq<char>>,
)
    ensures
        detect_spec(pasted, edited, known).len() <= MAX_PER_DICTATION,
        forall|i: int|
            0 <= i < detect_spec(pasted, edited, known).len() ==> acceptable(
                #[trigger] detect_spec(pasted, edited, known)[i],
            ) && !known.contains(lowercase(detect_spec(pasted, edited, known)[i].1)),
        forall|i: int, j: int|
            0 <= i < j < detect_spec(pasted, edited, known).len() ==> lowercase(
                #[trigger] detect_spec(pasted, edited, known)[i].1,
            ) != lowercase(#[trigger] detect_spec(pasted, edited, known)[j].1),
{
    let p = words(pasted);
    let e = words(edited);
    if let Some((s, t)) = region(p, e) {
        lemma_gather_props(align_spec(p, e.subrange(s, t)), known);
    }
}

/// Steps that change nothing teach nothing.
proof fn lemma_no_changes_no_corrections(steps: Seq<AlignStep>, known: Seq<Seq<char>>)
    requires
        changes(steps) == 0,
    ensures
        gather(steps, known).len() == 0,
    decreases steps.len(),
{
    if steps.len() > 0 {
        lemma_no_changes_no_corrections(steps.drop_last(), known);
    }
}

/// An untouched transcript teaches nothing: when the field holds exactly what
/// was pasted, no correction is found.
pub proof fn lemma_untouched_transcript_teaches_nothing(pasted: Seq<char>, known: Seq<Seq<char>>)
    ensures
        detect_spec(pasted, pasted, known).len() == 0,
{
    let w = words(pasted);
    if let Some((s, t)) = region(w, w) {
        let n = w.len() as int;
        let (bs, bl) = choose|s: int, l: int| is_best_window(w, w, s, l);
        assert(is_window(n, n, 0, n));
        assert(w.subrange(0, n) =~= w);
        lemma_edit_distance_self(keys(w));
        assert(window_cost(w, w, 0, n) == 0);
        assert(window_cost(w, w, bs, bl) == 0);
        lemma_edit_distance_zero(keys(w), keys(w.subrange(s, t)));
        lemma_indel_self(keys(w));
        lemma_align_is_cheapest(w, w.subrange(s, t));
        lemma_changes_le_cost(align_spec(w, w.subrange(s, t)));
        lemma_no_changes_no_corrections(align_spec(w, w.subrange(s, t)), known);
    }
}


/// A capitalisation-only change is a correction: when both words pass the
/// length and word filters and differ only in case, the replacement is
/// learned, whatever their similarity.
pub proof fn lemma_case_only_change_is_learned(from: Seq<char>, to: Seq<char>)
    requires
        MIN_WORD_LEN <= core_of(to).len() <= MAX_WORD_LEN,
        MIN_WORD_LEN <= core_of(from).len(),
        core_of(from) != core_of(to),
        learnable(core_of(from)),
        learnable(core_of(to)),
        lowercase(core_of(from)) == lowercase(core_of(to)),
    ensures
        evaluate_spec(from, to) == Some((core_of(from), core_of(to))),
{
}

/// A change of punctuation only is no correction: when the two words are
/// the same without the punctuation around them, nothing is learned.
pub proof fn lemma_punctuation_only_change_is_rejected(from: Seq<char>, to: Seq<char>)
    requires
        core_of(from) == core_of(to),
    ensures
        evaluate_spec(from, to) is None,
{
}

/// A rewrite is not a correction: two words of different letters (not a
/// case change) that are not similar enough teach nothing.
pub proof fn lemma_dissimilar_replacement_is_rejected(from: Seq<char>, to: Seq<char>)
    requires
        lowercase(core_of(from)) != lowercase(core_of(to)),
        !similar_enough(core_of(from), core_of(to)),
    ensures
        evaluate_spec(from, to) is None,
{
}

/// Every correction that passes the word filters is learned: when the
/// replacement has a learnable length, the original is long enough, the two
/// differ, both look like words, and they differ only in case or are similar
/// enough, `evaluate` accepts the pair of their comparison keys. With
/// `lemma_dissimilar_replacement_is_rejected` this says exactly which pairs
/// are learned.
pub proof fn lemma_filtered_correction_is_accepted(from: Seq<char>, to: Seq<char>)
    requires
        MIN_WORD_LEN <= core_of(to).len() <= MAX_WORD_LEN,
        MIN_WORD_LEN <= core_of(from).len(),
        core_of(from) != core_of(to),
        learnable(core_of(from)),
        learnable(core_of(to)),
        lowercase(core_of(from)) == lowercase(core_of(to)) || similar_enough(
            core_of(from),
            core_of(to),
        ),
    ensures
        evaluate_spec(from, to) == Some((core_of(from), core_of(to))),
{
}

} // verus!
