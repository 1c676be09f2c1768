//! Character-level text handling shared by every module.
//!
//! Strings are handled as sequences of `char`. The Unicode character classes
//! and case mappings come from `std`; everything built on top of them
//! (trimming, splitting into words, substring search) is verified here.

use vstd::prelude::*;

verus! {

/// `char::is_whitespace`: the Unicode `White_Space` property, which
/// Unicode's PropList gives to exactly these code points: the controls
/// U+0009 to U+000D, the space, U+0085, the no-break space U+00A0, U+1680,
/// the spaces U+2000 to U+200A, the line and paragraph separators U+2028 and
/// U+2029, U+202F, U+205F and the ideographic space U+3000.
pub open spec fn char_is_whitespace(c: char) -> bool {
    let n = c as int;
    ||| 0x09 <= n <= 0x0D
    ||| n == 0x20
    ||| n == 0x85
    ||| n == 0xA0
    ||| n == 0x1680
    ||| 0x2000 <= n <= 0x200A
    ||| n == 0x2028
    ||| n == 0x2029
    ||| n == 0x202F
    ||| n == 0x205F
    ||| n == 0x3000
}

/// `char::is_numeric`: the Unicode general categories of numbers (`Nd`,
/// `Nl`, `No`).
pub uninterp spec fn char_is_numeric(c: char) -> bool;

/// `char::is_alphanumeric`, which std documents as `is_alphabetic` or
/// `is_numeric`.
pub open spec fn char_is_alphanumeric(c: char) -> bool {
    char_is_alphabetic(c) || char_is_numeric(c)
}

/// `char::is_alphabetic`: the Unicode `Alphabetic` property.
pub uninterp spec fn char_is_alphabetic(c: char) -> bool;

/// Every character of `s` is ASCII.
pub open spec fn is_ascii_text(s: Seq<char>) -> bool {
    forall|i: int| 0 <= i < s.len() ==> (s[i] as int) < 128
}

/// `str::to_lowercase` of a text that is not all ASCII: the Unicode
/// lowercase mapping of the whole string.
pub uninterp spec fn unicode_lowercase(s: Seq<char>) -> Seq<char>;

/// `str::to_lowercase`: the Unicode lowercase mapping of a whole string. On
/// ASCII text it makes the capital letters A to Z small and keeps every other
/// character, as `str::to_ascii_lowercase` does.
pub open spec fn lowercase(s: Seq<char>) -> Seq<char> {
    if is_ascii_text(s) {
        ascii_lower(s)
    } else {
        unicode_lowercase(s)
    }
}

/// `char::to_uppercase`: the characters a single character uppercases to.
pub uninterp spec fn char_uppercase(c: char) -> Seq<char>;

/// `char::to_lowercase`: the characters a single character lowercases to.
pub uninterp spec fn char_lowercase(c: char) -> Seq<char>;

/// `str::to_uppercase`: the Unicode uppercase mapping of a whole string.
pub uninterp spec fn uppercase(s: Seq<char>) -> Seq<char>;

/// Calls `char::is_whitespace`; the result is the `White_Space` property of
/// `c` (see `char_is_whitespace`).
#[verifier::external_body]
pub(crate) fn is_whitespace(c: char) -> (r: bool)
    ensures
        r == char_is_whitespace(c),
{
    c.is_whitespace()
}

/// Calls `char::is_alphanumeric`, which std documents as true exactly when
/// `char::is_alphabetic` or `char::is_numeric` is.
#[verifier::external_body]
pub(crate) fn is_alphanumeric(c: char) -> (r: bool)
    ensures
        r == (char_is_alphabetic(c) || char_is_numeric(c)),
{
    c.is_alphanumeric()
}

/// Calls `char::is_alphabetic`; the result is named by `char_is_alphabetic`.
#[verifier::external_body]
pub(crate) fn is_alphabetic(c: char) -> (r: bool)
    ensures
        r == char_is_alphabetic(c),
{
    c.is_alphabetic()
}

/// Calls `str::to_lowercase`. Every character is mapped to its Unicode
/// lowercase, which for an ASCII character is the ASCII lowercase (std
/// points to `to_lowercase` for lowercasing "ASCII characters in addition to
/// non-ASCII characters"); beyond ASCII the result is named by
/// `unicode_lowercase`.
#[verifier::external_body]
pub(crate) fn to_lowercase(s: &str) -> (r: String)
    ensures
        r@ == lowercase(s@),
        !is_ascii_text(s@) ==> r@ == unicode_lowercase(s@),
{
    s.to_lowercase()
}

/// Calls `str::to_uppercase`; the result is named by `uppercase`.
#[verifier::external_body]
pub(crate) fn to_uppercase(s: &str) -> (r: String)
    ensures
        r@ == uppercase(s@),
{
    s.to_uppercase()
}

/// Calls `char::to_lowercase` and collects the characters it yields.
#[verifier::external_body]
pub(crate) fn lowercase_char(c: char) -> (r: String)
    ensures
        r@ == char_lowercase(c),
{
    c.to_lowercase().collect()
}

/// Calls `char::to_uppercase` and collects the characters it yields.
#[verifier::external_body]
pub(crate) fn uppercase_char(c: char) -> (r: String)
    ensures
        r@ == char_uppercase(c),
{
    c.to_uppercase().collect()
}

/// Collects characters into a `String` (`FromIterator<char>`), which holds
/// exactly those characters in order.
#[verifier::external_body]
pub(crate) fn string_from_chars(v: &[char]) -> (r: String)
    ensures
        r@ == v@,
{
    v.iter().collect()
}

/// The characters of `s`, in order.
pub fn chars_of(s: &str) -> (r: Vec<char>)
    ensures
        r@ == s@,
{
    let mut v: Vec<char> = Vec::new();
    for c in it: s.chars()
        invariant
            v@ == it.seq().take(it.index() as int),
            it.seq() == s@,
    {
        v.push(c);
    }
    v
}


/// A class of characters that text is trimmed by.
#[derive(Clone, Copy, PartialEq, Eq, Debug)]
pub enum CharClass {
    /// Unicode whitespace, as `str::trim` removes it.
    Whitespace,
    /// Anything that is neither alphanumeric nor an apostrophe (straight or
    /// curly) nor a hyphen: the punctuation around a word.
    WordEdge,
    /// Anything that is not alphanumeric.
    NonAlphanumeric,
    /// Whitespace and the punctuation that may separate a spoken command from
    /// the phrase in front of it.
    CommandLead,
    /// Anything but whitespace: the characters of a word.
    NonWhitespace,
}

/// Punctuation that may separate an activation phrase from its command.
pub open spec fn is_command_punct(c: char) -> bool {
    c == ',' || c == '.' || c == '!' || c == '?' || c == ':' || c == ';' || c == '-'
        || c == '\u{2014}' || c == '\u{2013}'
}

/// Whether `c` belongs to class `k`.
pub open spec fn class_has(k: CharClass, c: char) -> bool {
    match k {
        CharClass::Whitespace => char_is_whitespace(c),
        CharClass::WordEdge => !char_is_alphanumeric(c) && c != '\'' && c != '\u{2019}' && c
            != '-',
        CharClass::NonAlphanumeric => !char_is_alphanumeric(c),
        CharClass::CommandLead => char_is_whitespace(c) || is_command_punct(c),
        CharClass::NonWhitespace => !char_is_whitespace(c),
    }
}

/// Decides `class_has`.
pub fn in_class(k: CharClass, c: char) -> (r: bool)
    ensures
        r == class_has(k, c),
{
    match k {
        CharClass::Whitespace => is_whitespace(c),
        CharClass::WordEdge => !is_alphanumeric(c) && c != '\'' && c != '\u{2019}' && c != '-',
        CharClass::NonAlphanumeric => !is_alphanumeric(c),
        CharClass::CommandLead => is_whitespace(c) || c == ',' || c == '.' || c == '!' || c
            == '?' || c == ':' || c == ';' || c == '-' || c == '\u{2014}' || c == '\u{2013}',
        CharClass::NonWhitespace => !is_whitespace(c),
    }
}

/// How many characters at the front of `s` belong to `k`.
pub open spec fn lead(s: Seq<char>, k: CharClass) -> nat
    decreases s.len(),
{
    if s.len() > 0 && class_has(k, s[0]) {
        1 + lead(s.drop_first(), k)
    } else {
        0
    }
}

/// How many characters at the back of `s` belong to `k`.
pub open spec fn trail(s: Seq<char>, k: CharClass) -> nat
    decreases s.len(),
{
    if s.len() > 0 && class_has(k, s.last()) {
        1 + trail(s.drop_last(), k)
    } else {
        0
    }
}

/// `s` without the characters of class `k` at its front.
pub open spec fn trim_start_by(s: Seq<char>, k: CharClass) -> Seq<char> {
    s.skip(lead(s, k) as int)
}

/// `s` without the characters of class `k` at its back.
pub open spec fn trim_end_by(s: Seq<char>, k: CharClass) -> Seq<char> {
    s.take(s.len() - trail(s, k))
}

/// `s` without the characters of class `k` at either end.
pub open spec fn trim_by(s: Seq<char>, k: CharClass) -> Seq<char> {
    trim_end_by(trim_start_by(s, k), k)
}

/// `s` without leading and trailing whitespace, as `str::trim` gives it.
pub open spec fn trim_ws(s: Seq<char>) -> Seq<char> {
    trim_by(s, CharClass::Whitespace)
}

/// The front of `s` in class `k` is exactly `n` long.
pub proof fn lemma_lead_is(s: Seq<char>, k: CharClass, n: int)
    requires
        0 <= n <= s.len(),
        forall|t: int| 0 <= t < n ==> class_has(k, #[trigger] s[t]),
        n == s.len() || !class_has(k, s[n]),
    ensures
        lead(s, k) == n,
    decreases n,
{
    if n > 0 {
        let s1 = s.drop_first();
        assert forall|t: int| 0 <= t < n - 1 implies class_has(k, #[trigger] s1[t]) by {
            assert(s1[t] == s[t + 1]);
        }
        if n - 1 < s1.len() {
            assert(s1[n - 1] == s[n]);
        }
        lemma_lead_is(s1, k, n - 1);
    }
}

/// The back of `s` in class `k` is exactly `n` long.
pub proof fn lemma_trail_is(s: Seq<char>, k: CharClass, n: int)
    requires
        0 <= n <= s.len(),
        forall|t: int| s.len() - n <= t < s.len() ==> class_has(k, #[trigger] s[t]),
        n == s.len() || !class_has(k, s[s.len() - n - 1]),
    ensures
        trail(s, k) == n,
    decreases n,
{
    if n > 0 {
        let s1 = s.drop_last();
        assert forall|t: int| s1.len() - (n - 1) <= t < s1.len() implies class_has(
            k,
            #[trigger] s1[t],
        ) by {
            assert(s1[t] == s[t]);
        }
        if n - 1 < s1.len() {
            assert(s1[s1.len() - (n - 1) - 1] == s[s.len() - n - 1]);
        }
        lemma_trail_is(s1, k, n - 1);
    }
}

/// The front of `s` in class `k` is a prefix of `s`, all of it in `k`, and
/// it stops at a character outside `k` (or at the end).
pub proof fn lemma_lead_facts(s: Seq<char>, k: CharClass)
    ensures
        lead(s, k) <= s.len(),
        forall|t: int| 0 <= t < lead(s, k) ==> class_has(k, #[trigger] s[t]),
        lead(s, k) < s.len() ==> !class_has(k, s[lead(s, k) as int]),
    decreases s.len(),
{
    if s.len() > 0 && class_has(k, s[0]) {
        let s1 = s.drop_first();
        lemma_lead_facts(s1, k);
        assert forall|t: int| 0 <= t < lead(s, k) implies class_has(k, #[trigger] s[t]) by {
            if t > 0 {
                assert(s[t] == s1[t - 1]);
            }
        }
        if lead(s, k) < s.len() {
            assert(s[lead(s, k) as int] == s1[lead(s1, k) as int]);
        }
    }
}

/// Whitespace added at the end of a text does not change it once trimmed.
pub proof fn lemma_trim_ws_push_whitespace(y: Seq<char>, c: char)
    requires
        char_is_whitespace(c),
    ensures
        trim_ws(y.push(c)) == trim_ws(y),
{
    let k = CharClass::Whitespace;
    let z = y.push(c);
    lemma_lead_facts(y, k);
    let l = lead(y, k);
    if l == y.len() {
        assert forall|t: int| 0 <= t < z.len() implies class_has(k, #[trigger] z[t]) by {
            if t < y.len() {
                assert(z[t] == y[t]);
            }
        }
        lemma_lead_is(z, k, z.len() as int);
        assert(trim_start_by(z, k) =~= Seq::<char>::empty());
        assert(trim_start_by(y, k) =~= Seq::<char>::empty());
        lemma_trail_bounded(Seq::<char>::empty(), k);
    } else {
        assert forall|t: int| 0 <= t < l implies class_has(k, #[trigger] z[t]) by {
            assert(z[t] == y[t]);
        }
        assert(z[l as int] == y[l as int]);
        lemma_lead_is(z, k, l as int);
        let w = trim_start_by(y, k);
        assert(trim_start_by(z, k) =~= w.push(c));
        assert(w.push(c).drop_last() =~= w);
        assert(trail(w.push(c), k) == 1 + trail(w, k));
        lemma_trail_bounded(w, k);
        assert(w.push(c).take(w.push(c).len() - trail(w.push(c), k)) =~= w.take(
            w.len() - trail(w, k),
        ));
    }
}

/// The back of `s` in class `k` is no longer than `s`.
pub proof fn lemma_trail_bounded(s: Seq<char>, k: CharClass)
    ensures
        trail(s, k) <= s.len(),
    decreases s.len(),
{
    if s.len() > 0 && class_has(k, s.last()) {
        lemma_trail_bounded(s.drop_last(), k);
    }
}

/// Length of the front of `s[from..]` in class `k`.
pub fn lead_len_from(s: &[char], from: usize, k: CharClass) -> (r: usize)
    requires
        from <= s@.len(),
    ensures
        r == lead(s@.skip(from as int), k),
        from + r <= s@.len(),
{
    let mut i: usize = from;
    while i < s.len() && in_class(k, s[i])
        invariant
            from <= i <= s@.len(),
            forall|t: int| from <= t < i ==> class_has(k, #[trigger] s@[t]),
        decreases s.len() - i,
    {
        i += 1;
    }
    proof {
        let rest = s@.skip(from as int);
        assert forall|t: int| 0 <= t < i - from implies class_has(k, #[trigger] rest[t]) by {
            assert(rest[t] == s@[from + t]);
        }
        if i < s@.len() {
            assert(rest[i - from] == s@[i as int]);
        }
        lemma_lead_is(rest, k, i - from);
    }
    i - from
}

/// Length of the front of `s` in class `k`.
pub fn lead_len(s: &[char], k: CharClass) -> (r: usize)
    ensures
        r == lead(s@, k),
        r <= s@.len(),
{
    let mut i: usize = 0;
    while i < s.len() && in_class(k, s[i])
        invariant
            i <= s@.len(),
            forall|t: int| 0 <= t < i ==> class_has(k, #[trigger] s@[t]),
        decreases s.len() - i,
    {
        i += 1;
    }
    proof {
        lemma_lead_is(s@, k, i as int);
    }
    i
}

/// Length of the back of `s` in class `k`.
pub fn trail_len(s: &[char], k: CharClass) -> (r: usize)
    ensures
        r == trail(s@, k),
        r <= s@.len(),
{
    let mut n: usize = 0;
    while n < s.len() && in_class(k, s[s.len() - 1 - n])
        invariant
            n <= s@.len(),
            forall|t: int| s@.len() - n <= t < s@.len() ==> class_has(k, #[trigger] s@[t]),
        decreases s.len() - n,
    {
        n += 1;
    }
    proof {
        lemma_trail_is(s@, k, n as int);
    }
    n
}

/// A copy of `s[from..to]`.
pub fn slice_to_vec(s: &[char], from: usize, to: usize) -> (r: Vec<char>)
    requires
        from <= to <= s@.len(),
    ensures
        r@ == s@.subrange(from as int, to as int),
{
    let mut v: Vec<char> = Vec::new();
    let mut i = from;
    while i < to
        invariant
            from <= i <= to <= s@.len(),
            v@ == s@.subrange(from as int, i as int),
        decreases to - i,
    {
        v.push(s[i]);
        i += 1;
    }
    v
}

/// `s` with the characters of class `k` removed from both ends.
pub fn trim_chars(s: &[char], k: CharClass) -> (r: Vec<char>)
    ensures
        r@ == trim_by(s@, k),
{
    let a = lead_len(s, k);
    let rest = slice_to_vec(s, a, s.len());
    assert(rest@ == trim_start_by(s@, k));
    let b = trail_len(rest.as_slice(), k);
    slice_to_vec(rest.as_slice(), 0, rest.len() - b)
}

/// `s` with leading and trailing whitespace removed (`str::trim`).
pub fn trim(s: &str) -> (r: String)
    ensures
        r@ == trim_ws(s@),
{
    let v = chars_of(s);
    let t = trim_chars(v.as_slice(), CharClass::Whitespace);
    string_from_chars(t.as_slice())
}

/// `a` followed by `b`.
pub fn concat(a: &str, b: &str) -> (r: String)
    ensures
        r@ == a@ + b@,
{
    let mut v = chars_of(a);
    let w = chars_of(b);
    let mut i: usize = 0;
    while i < w.len()
        invariant
            i <= w@.len(),
            v@ == a@ + w@.take(i as int),
        decreases w.len() - i,
    {
        v.push(w[i]);
        proof {
            assert(w@.take(i + 1) =~= w@.take(i as int).push(w@[i as int]));
        }
        i += 1;
    }
    proof {
        assert(w@.take(w@.len() as int) =~= w@);
    }
    string_from_chars(v.as_slice())
}

/// An ASCII capital letter.
pub open spec fn is_ascii_upper(c: char) -> bool {
    'A' <= c && c <= 'Z'
}

/// `c` with an ASCII capital letter made small (`char::to_ascii_lowercase`).
pub open spec fn ascii_lower_char(c: char) -> char {
    if is_ascii_upper(c) {
        (((c as u32) + 32) as u8) as char
    } else {
        c
    }
}

/// `s` with every ASCII capital letter made small, other characters as they
/// are (`str::to_ascii_lowercase`).
pub open spec fn ascii_lower(s: Seq<char>) -> Seq<char> {
    s.map_values(|c: char| ascii_lower_char(c))
}

/// `s` with every ASCII capital letter made small.
pub fn to_ascii_lowercase(s: &str) -> (r: String)
    ensures
        r@ == ascii_lower(s@),
{
    let v = chars_of(s);
    let mut out: Vec<char> = Vec::new();
    let mut i: usize = 0;
    while i < v.len()
        invariant
            i <= v@.len(),
            v@ == s@,
            out@ == ascii_lower(s@.take(i as int)),
        decreases v.len() - i,
    {
        let c = v[i];
        let d = if 'A' <= c && c <= 'Z' {
            (((c as u32) + 32) as u8) as char
        } else {
            c
        };
        out.push(d);
        proof {
            assert(ascii_lower(s@.take(i + 1)) =~= ascii_lower(s@.take(i as int)).push(
                ascii_lower_char(s@[i as int]),
            ));
        }
        i += 1;
    }
    proof {
        assert(s@.take(v@.len() as int) =~= s@);
    }
    string_from_chars(out.as_slice())
}

/// Two characters are equal apart from ASCII case.
pub open spec fn same_ignoring_ascii_case(x: char, y: char) -> bool {
    x == y || (is_ascii_upper(x) && (y as u32) == (x as u32) + 32) || (is_ascii_upper(y) && (
    x as u32) == (y as u32) + 32)
}

/// Two texts are equal apart from the case of ASCII letters
/// (`str::eq_ignore_ascii_case`).
pub open spec fn eq_ignoring_ascii_case(a: Seq<char>, b: Seq<char>) -> bool {
    a.len() == b.len() && forall|i: int| 0 <= i < a.len() ==> same_ignoring_ascii_case(a[i], b[i])
}

/// Decides `eq_ignoring_ascii_case`.
pub fn eq_ignore_ascii_case(a: &str, b: &str) -> (r: bool)
    ensures
        r == eq_ignoring_ascii_case(a@, b@),
{
    let x = chars_of(a);
    let y = chars_of(b);
    if x.len() != y.len() {
        return false;
    }
    let mut i: usize = 0;
    while i < x.len()
        invariant
            i <= x@.len(),
            x@ == a@,
            y@ == b@,
            x@.len() == y@.len(),
            forall|t: int| 0 <= t < i ==> same_ignoring_ascii_case(x@[t], y@[t]),
        decreases x.len() - i,
    {
        let c = x[i];
        let d = y[i];
        let same = c == d || ('A' <= c && c <= 'Z' && (d as u32) == (c as u32) + 32) || ('A' <= d
            && d <= 'Z' && (c as u32) == (d as u32) + 32);
        if !same {
            return false;
        }
        i += 1;
    }
    true
}

/// Whether two texts are equal.
pub fn same_text(a: &str, b: &str) -> (r: bool)
    ensures
        r == (a@ == b@),
{
    let x = chars_of(a);
    let y = chars_of(b);
    if x.len() != y.len() {
        return false;
    }
    let mut i: usize = 0;
    while i < x.len()
        invariant
            i <= x@.len(),
            x@ == a@,
            y@ == b@,
            x@.len() == y@.len(),
            forall|t: int| 0 <= t < i ==> x@[t] == y@[t],
        decreases x.len() - i,
    {
        if x[i] != y[i] {
            assert(a@[i as int] != b@[i as int]);
            return false;
        }
        i += 1;
    }
    assert(x@ =~= y@);
    true
}

/// `s` with every occurrence of `from` replaced by `to`, matches taken left
/// to right without overlap (`str::replace`, for a non-empty `from`).
pub open spec fn replaced(s: Seq<char>, from: Seq<char>, to: Seq<char>) -> Seq<char>
    decreases s.len(),
{
    if from.len() == 0 || s.len() < from.len() {
        s
    } else if s.take(from.len() as int) == from {
        to + replaced(s.skip(from.len() as int), from, to)
    } else {
        seq![s[0]] + replaced(s.skip(1), from, to)
    }
}

/// `replaced`, computed.
pub fn replace_text(s: &str, from: &str, to: &str) -> (r: String)
    ensures
        r@ == replaced(s@, from@, to@),
{
    let c = chars_of(s);
    let f = chars_of(from);
    let t = chars_of(to);
    if f.len() == 0 {
        return s.to_owned();
    }
    let mut out: Vec<char> = Vec::new();
    let mut i: usize = 0;
    proof {
        assert(c@.skip(0) =~= c@);
    }
    while i < c.len()
        invariant
            i <= c@.len(),
            c@ == s@,
            f@ == from@,
            t@ == to@,
            f@.len() > 0,
            replaced(s@, from@, to@) == out@ + replaced(c@.skip(i as int), from@, to@),
        decreases c.len() - i,
    {
        let ghost rest = c@.skip(i as int);
        if f.len() <= c.len() - i && matches_at(c.as_slice(), f.as_slice(), i) {
            proof {
                assert(rest.take(f@.len() as int) =~= c@.subrange(i as int, i + f@.len()));
                assert(rest.skip(f@.len() as int) =~= c@.skip(i + f@.len()));
            }
            let mut k: usize = 0;
            let ghost base = out@;
            while k < t.len()
                invariant
                    k <= t@.len(),
                    out@ == base + t@.take(k as int),
                decreases t.len() - k,
            {
                out.push(t[k]);
                proof {
                    assert(t@.take(k + 1) =~= t@.take(k as int).push(t@[k as int]));
                }
                k += 1;
            }
            proof {
                assert(t@.take(t@.len() as int) =~= t@);
                assert(out@ + replaced(c@.skip(i + f@.len()), from@, to@) =~= base + (to@
                    + replaced(rest.skip(f@.len() as int), from@, to@)));
            }
            i += f.len();
        } else {
            proof {
                if rest.len() >= f@.len() {
                    assert(rest.take(f@.len() as int) =~= c@.subrange(i as int, i + f@.len()));
                }
                assert(rest.skip(1) =~= c@.skip(i + 1));
                assert(rest[0] == c@[i as int]);
            }
            let ghost base = out@;
            out.push(c[i]);
            proof {
                assert(out@ + replaced(c@.skip(i + 1), from@, to@) =~= base + (seq![rest[0]]
                    + replaced(rest.skip(1), from@, to@)));
            }
            i += 1;
        }
    }
    proof {
        assert(c@.skip(i as int).len() == 0);
        assert(out@ + replaced(c@.skip(i as int), from@, to@) =~= out@);
    }
    string_from_chars(out.as_slice())
}

/// `s` without its whitespace.
pub open spec fn without_whitespace(s: Seq<char>) -> Seq<char>
    decreases s.len(),
{
    if s.len() == 0 {
        Seq::empty()
    } else if char_is_whitespace(s.last()) {
        without_whitespace(s.drop_last())
    } else {
        without_whitespace(s.drop_last()).push(s.last())
    }
}

/// `s` without its whitespace.
pub fn remove_whitespace(s: &str) -> (r: String)
    ensures
        r@ == without_whitespace(s@),
{
    let c = chars_of(s);
    let mut out: Vec<char> = Vec::new();
    let mut i: usize = 0;
    while i < c.len()
        invariant
            i <= c@.len(),
            c@ == s@,
            out@ == without_whitespace(c@.take(i as int)),
        decreases c.len() - i,
    {
        proof {
            assert(c@.take(i + 1).drop_last() =~= c@.take(i as int));
        }
        if !is_whitespace(c[i]) {
            out.push(c[i]);
        }
        i += 1;
    }
    proof {
        assert(c@.take(c@.len() as int) =~= c@);
    }
    string_from_chars(out.as_slice())
}

/// `needle` occurs in `hay` starting at `i`.
pub open spec fn occurs_at(hay: Seq<char>, needle: Seq<char>, i: int) -> bool {
    0 <= i && i + needle.len() <= hay.len() && hay.subrange(i, i + needle.len()) == needle
}

/// `needle` occurs somewhere in `hay` (`str::contains`).
pub open spec fn has_substring(hay: Seq<char>, needle: Seq<char>) -> bool {
    exists|i: int| occurs_at(hay, needle, i)
}

/// Whether `hay[i..]` starts with `needle`.
fn matches_at(hay: &[char], needle: &[char], i: usize) -> (r: bool)
    requires
        i + needle@.len() <= hay@.len(),
    ensures
        r == occurs_at(hay@, needle@, i as int),
{
    let hl = hay.len();
    let mut j: usize = 0;
    while j < needle.len()
        invariant
            hl == hay@.len(),
            j <= needle@.len(),
            i + needle@.len() <= hay@.len(),
            forall|t: int| 0 <= t < j ==> hay@[i + t] == #[trigger] needle@[t],
        decreases needle.len() - j,
    {
        if hay[i + j] != needle[j] {
            assert(hay@.subrange(i as int, i + needle@.len())[j as int] != needle@[j as int]);
            return false;
        }
        j += 1;
    }
    assert(hay@.subrange(i as int, i + needle@.len()) =~= needle@);
    true
}

/// Whether `needle` occurs in `hay`.
pub fn contains_chars(hay: &[char], needle: &[char]) -> (r: bool)
    ensures
        r == has_substring(hay@, needle@),
{
    if needle.len() > hay.len() {
        return false;
    }
    if needle.len() == 0 {
        assert(hay@.subrange(0, 0) =~= needle@);
        assert(occurs_at(hay@, needle@, 0));
        return true;
    }
    let hl = hay.len();
    let last = hl - needle.len();
    let mut i: usize = 0;
    while i <= last
        invariant
            0 < needle@.len() <= hay@.len(),
            last == hay@.len() - needle@.len(),
            hay@.len() <= usize::MAX,
            i <= last + 1,
            forall|t: int| 0 <= t < i ==> !occurs_at(hay@, needle@, t),
        decreases last + 1 - i,
    {
        if matches_at(hay, needle, i) {
            return true;
        }
        i += 1;
    }
    false
}

/// Whether `needle` occurs in `hay` (`str::contains`).
pub fn str_contains(hay: &str, needle: &str) -> (r: bool)
    ensures
        r == has_substring(hay@, needle@),
{
    let h = chars_of(hay);
    let n = chars_of(needle);
    contains_chars(h.as_slice(), n.as_slice())
}

/// The words of `s` seen so far after reading it left to right: the words
/// already finished, and the one still being read.
pub open spec fn split_state(s: Seq<char>) -> (Seq<Seq<char>>, Seq<char>)
    decreases s.len(),
{
    if s.len() == 0 {
        (Seq::empty(), Seq::empty())
    } else {
        let (done, cur) = split_state(s.drop_last());
        if char_is_whitespace(s.last()) {
            if cur.len() > 0 {
                (done.push(cur), Seq::empty())
            } else {
                (done, Seq::empty())
            }
        } else {
            (done, cur.push(s.last()))
        }
    }
}

/// The maximal runs of non-whitespace characters of `s`, in order
/// (`str::split_whitespace`).
pub open spec fn words(s: Seq<char>) -> Seq<Seq<char>> {
    let (done, cur) = split_state(s);
    if cur.len() > 0 {
        done.push(cur)
    } else {
        done
    }
}

/// Reading `s` never yields more finished words and pending characters than
/// `s` has characters.
pub proof fn lemma_split_state_len(s: Seq<char>)
    ensures
        split_state(s).0.len() + split_state(s).1.len() <= s.len(),
    decreases s.len(),
{
    if s.len() > 0 {
        lemma_split_state_len(s.drop_last());
    }
}

/// A text has no more words than characters.
pub proof fn lemma_words_len(s: Seq<char>)
    ensures
        words(s).len() <= s.len(),
{
    lemma_split_state_len(s);
}

/// One step of reading text into words: whitespace ends the word being
/// read, any other character extends it.
pub open spec fn split_step(st: (Seq<Seq<char>>, Seq<char>), c: char) -> (Seq<Seq<char>>, Seq<char>) {
    if char_is_whitespace(c) {
        if st.1.len() > 0 {
            (st.0.push(st.1), Seq::empty())
        } else {
            (st.0, Seq::empty())
        }
    } else {
        (st.0, st.1.push(c))
    }
}

/// Reading `s` into words, starting from the state `st`.
pub open spec fn split_from(st: (Seq<Seq<char>>, Seq<char>), s: Seq<char>) -> (
    Seq<Seq<char>>,
    Seq<char>,
)
    decreases s.len(),
{
    if s.len() == 0 {
        st
    } else {
        split_step(split_from(st, s.drop_last()), s.last())
    }
}

proof fn lemma_split_state_is_split_from(s: Seq<char>)
    ensures
        split_state(s) == split_from((Seq::empty(), Seq::empty()), s),
    decreases s.len(),
{
    if s.len() > 0 {
        lemma_split_state_is_split_from(s.drop_last());
    }
}

proof fn lemma_split_from_concat(st: (Seq<Seq<char>>, Seq<char>), a: Seq<char>, b: Seq<char>)
    ensures
        split_from(st, a + b) == split_from(split_from(st, a), b),
    decreases b.len(),
{
    if b.len() == 0 {
        assert(a + b =~= a);
    } else {
        lemma_split_from_concat(st, a, b.drop_last());
        assert((a + b).drop_last() =~= a + b.drop_last());
        assert((a + b).last() == b.last());
    }
}

proof fn lemma_split_from_fresh(d: Seq<Seq<char>>, s: Seq<char>)
    ensures
        split_from((d, Seq::empty()), s) == (d + split_state(s).0, split_state(s).1),
    decreases s.len(),
{
    if s.len() == 0 {
        assert(d + Seq::<Seq<char>>::empty() =~= d);
    } else {
        lemma_split_from_fresh(d, s.drop_last());
        let (d1, c1) = split_state(s.drop_last());
        assert((d + d1).push(c1) =~= d + d1.push(c1));
    }
}

proof fn lemma_split_from_non_ws(st: (Seq<Seq<char>>, Seq<char>), y: Seq<char>)
    requires
        forall|i: int| 0 <= i < y.len() ==> !char_is_whitespace(#[trigger] y[i]),
    ensures
        split_from(st, y) == (st.0, st.1 + y),
    decreases y.len(),
{
    if y.len() == 0 {
        assert(st.1 + y =~= st.1);
    } else {
        let y1 = y.drop_last();
        assert forall|i: int| 0 <= i < y1.len() implies !char_is_whitespace(#[trigger] y1[i]) by {
            assert(y1[i] == y[i]);
        }
        lemma_split_from_non_ws(st, y1);
        assert(!char_is_whitespace(y[y.len() - 1]));
        assert((st.1 + y1).push(y.last()) =~= st.1 + y);
    }
}

proof fn lemma_split_from_ws(y: Seq<char>)
    requires
        forall|i: int| 0 <= i < y.len() ==> char_is_whitespace(#[trigger] y[i]),
    ensures
        split_from((Seq::empty(), Seq::empty()), y) == (Seq::<Seq<char>>::empty(), Seq::<char>::empty()),
    decreases y.len(),
{
    if y.len() > 0 {
        let y1 = y.drop_last();
        assert forall|i: int| 0 <= i < y1.len() implies char_is_whitespace(#[trigger] y1[i]) by {
            assert(y1[i] == y[i]);
        }
        lemma_split_from_ws(y1);
        assert(char_is_whitespace(y[y.len() - 1]));
    }
}

/// The words of a text that does not start with all whitespace: the first
/// word is the run of non-whitespace after the leading whitespace, and the
/// rest are the words of what follows it.
pub proof fn lemma_words_front(t: Seq<char>)
    requires
        lead(t, CharClass::Whitespace) < t.len(),
    ensures
        lead(t.skip(lead(t, CharClass::Whitespace) as int), CharClass::NonWhitespace) > 0,
        words(t) == seq![
            t.skip(lead(t, CharClass::Whitespace) as int).take(
                lead(t.skip(lead(t, CharClass::Whitespace) as int), CharClass::NonWhitespace) as int,
            ),
        ] + words(
            t.skip(lead(t, CharClass::Whitespace) as int).skip(
                lead(t.skip(lead(t, CharClass::Whitespace) as int), CharClass::NonWhitespace) as int,
            ),
        ),
{
    let e: (Seq<Seq<char>>, Seq<char>) = (Seq::empty(), Seq::empty());
    let l = lead(t, CharClass::Whitespace) as int;
    let rest = t.skip(l);
    lemma_lead_facts(t, CharClass::Whitespace);
    lemma_lead_facts(rest, CharClass::NonWhitespace);
    assert(rest[0] == t[l]);
    assert(rest.len() > 0 && class_has(CharClass::NonWhitespace, rest[0]));
    assert(lead(rest, CharClass::NonWhitespace) == 1 + lead(rest.drop_first(), CharClass::NonWhitespace));
    let wl = lead(rest, CharClass::NonWhitespace) as int;
    let pre = t.take(l);
    let raw = rest.take(wl);
    let after = rest.skip(wl);
    assert(t =~= pre + raw + after);
    assert forall|i: int| 0 <= i < pre.len() implies char_is_whitespace(#[trigger] pre[i]) by {
        assert(pre[i] == t[i]);
        assert(class_has(CharClass::Whitespace, t[i]));
    }
    assert forall|i: int| 0 <= i < raw.len() implies !char_is_whitespace(#[trigger] raw[i]) by {
        assert(raw[i] == rest[i]);
        assert(class_has(CharClass::NonWhitespace, rest[i]));
    }
    lemma_split_state_is_split_from(t);
    lemma_split_state_is_split_from(after);
    lemma_split_from_concat(e, pre + raw, after);
    lemma_split_from_concat(e, pre, raw);
    lemma_split_from_ws(pre);
    lemma_split_from_non_ws(e, raw);
    assert(Seq::<char>::empty() + raw =~= raw);
    let st = (Seq::<Seq<char>>::empty(), raw);
    if after.len() == 0 {
        assert(split_from(st, after) == st);
        assert(words(after) =~= Seq::<Seq<char>>::empty());
        assert(words(t) =~= seq![raw]);
    } else {
        assert(after[0] == rest[wl]);
        assert(!class_has(CharClass::NonWhitespace, rest[wl]));
        let a0 = seq![after[0]];
        let a1 = after.skip(1);
        assert(after =~= a0 + a1);
        assert(a0.drop_last() =~= Seq::<char>::empty());
        assert(char_is_whitespace(after[0]));
        assert(a0.last() == after[0]);
        assert(split_from(st, a0.drop_last()) == st);
        assert(split_from(e, a0.drop_last()) == e);
        assert(raw.len() > 0);
        lemma_split_from_concat(st, a0, a1);
        lemma_split_from_concat(e, a0, a1);
        assert(split_from(st, a0) == (seq![raw], Seq::<char>::empty()));
        assert(split_from(e, a0) == e);
        lemma_split_from_fresh(seq![raw], a1);
        lemma_split_state_is_split_from(a1);
        let (d1, c1) = split_state(a1);
        assert(seq![raw] + d1.push(c1) =~= (seq![raw] + d1).push(c1));
    }
}

/// The views of a sequence of character vectors.
pub open spec fn views(v: Seq<Vec<char>>) -> Seq<Seq<char>> {
    v.map_values(|x: Vec<char>| x@)
}

/// The whitespace-separated words of `s`.
pub fn split_whitespace(s: &[char]) -> (r: Vec<Vec<char>>)
    ensures
        views(r@) == words(s@),
{
    let mut done: Vec<Vec<char>> = Vec::new();
    let mut cur: Vec<char> = Vec::new();
    let mut i: usize = 0;
    while i < s.len()
        invariant
            i <= s@.len(),
            (views(done@), cur@) == split_state(s@.take(i as int)),
        decreases s.len() - i,
    {
        proof {
            assert(s@.take(i + 1).drop_last() =~= s@.take(i as int));
        }
        let c = s[i];
        if is_whitespace(c) {
            if cur.len() > 0 {
                let ghost before = views(done@);
                let ghost fin = cur@;
                let finished = cur;
                cur = Vec::new();
                done.push(finished);
                proof {
                    assert(views(done@) =~= before.push(fin));
                }
            }
        } else {
            cur.push(c);
        }
        i += 1;
    }
    proof {
        assert(s@.take(s@.len() as int) =~= s@);
    }
    if cur.len() > 0 {
        let ghost before = views(done@);
        let ghost last = cur@;
        done.push(cur);
        proof {
            assert(views(done@) =~= before.push(last));
        }
    }
    done
}

} // verus!
