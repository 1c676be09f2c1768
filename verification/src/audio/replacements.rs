//! Rule-based text replacements applied to a transcription.
//!
//! Rules are literal or regular-expression substitutions, applied in order,
//! plus a few "magic" tokens that expand inside a rule's replacement text:
//! `[date]` and `[time]` (the local date and time), `[uppercase]` (alias
//! `[upper]`), `[lowercase]` (alias `[lower]`), `[capitalize]` and
//! `[nospace]`. Matching is done by the `regex` crate.

use vstd::prelude::*;
use crate::clock::{date_text, local_now_texts, time_text, DATETIME_LINE_FORMAT, DATE_FORMAT, TIME_FORMAT};
use crate::text::{
    char_is_alphanumeric, char_lowercase, char_uppercase, chars_of, concat, has_substring,
    is_alphanumeric, lowercase, lowercase_char, remove_whitespace, replace_text, replaced,
    str_contains, string_from_chars, to_lowercase, to_uppercase, uppercase, uppercase_char,
    without_whitespace,
};

verus! {

/// The characters that have a meaning in a regular expression.
pub open spec fn is_regex_meta(c: char) -> bool {
    c == '\\' || c == '.' || c == '+' || c == '*' || c == '?' || c == '(' || c == ')' || c == '|'
        || c == '[' || c == ']' || c == '{' || c == '}' || c == '^' || c == '$' || c == '#' || c
        == '&' || c == '-' || c == '~'
}

/// The text with a backslash before every meta character, so that it
/// matches itself literally (`regex::escape`).
pub open spec fn regex_escaped(s: Seq<char>) -> Seq<char>
    decreases s.len(),
{
    if s.len() == 0 {
        Seq::empty()
    } else {
        regex_escaped(s.drop_last()) + if is_regex_meta(s.last()) {
            seq!['\\', s.last()]
        } else {
            seq![s.last()]
        }
    }
}

/// Whether `regex::Regex::new` accepts the pattern.
pub uninterp spec fn regex_compiles(pattern: Seq<char>) -> bool;

/// `Regex::replace_all` with a literal replacement (`regex::NoExpand`): the
/// text with every non-overlapping match of the pattern, leftmost first,
/// replaced by the replacement text.
pub uninterp spec fn regex_replace_all(pattern: Seq<char>, text: Seq<char>, replacement: Seq<char>) -> Seq<char>;

/// A compiled regular expression of the `regex` crate.
#[verifier::external_type_specification]
#[verifier::external_body]
pub struct ExRegex(regex::Regex);

/// A compiled pattern, kept with the text it was compiled from.
pub struct CompiledPattern {
    pattern: String,
    regex: regex::Regex,
}

impl View for CompiledPattern {
    type V = Seq<char>;

    closed spec fn view(&self) -> Seq<char> {
        self.pattern@
    }
}

/// Calls `regex::escape`, which puts a backslash before every meta character
/// (see `regex_escaped`).
#[verifier::external_body]
fn escape(s: &str) -> (r: String)
    ensures
        r@ == regex_escaped(s@),
{
    regex::escape(s)
}

/// Calls `Regex::new`. The pattern compiles exactly when `regex_compiles`
/// says so, and the compiled pattern is kept with its text.
#[verifier::external_body]
fn compile(pattern: &str) -> (r: Option<CompiledPattern>)
    ensures
        r is Some <==> regex_compiles(pattern@),
        r matches Some(c) ==> c@ == pattern@,
{
    match regex::Regex::new(pattern) {
        Ok(regex) => Some(CompiledPattern { pattern: pattern.to_string(), regex }),
        Err(_) => None,
    }
}

/// Calls `Regex::replace_all` with `regex::NoExpand`, so `$` in the
/// replacement is literal; the result is named by `regex_replace_all`.
#[verifier::external_body]
fn replace_all_literal(compiled: &CompiledPattern, text: &str, replacement: &str) -> (r: String)
    ensures
        r@ == regex_replace_all(compiled@, text@, replacement@),
{
    compiled.regex.replace_all(text, regex::NoExpand(replacement)).into_owned()
}

/// How a rule's output is capitalized, after everything else.
#[derive(Clone, Copy, Debug, PartialEq, Eq, Structural)]
pub enum Capitalization {
    /// Leave the output as it is.
    AsIs,
    Uppercase,
    Lowercase,
    Capitalize,
}

/// One replacement rule.
#[derive(Clone, Debug)]
pub struct Replacement {
    /// What to find: a literal phrase, or a regular expression.
    pub search: String,
    /// What to put in its place, with magic tokens.
    pub replace: String,
    pub is_regex: bool,
    pub enabled: bool,
    /// Also remove the whitespace before a match.
    pub trim_before: bool,
    /// Also remove the whitespace after a match.
    pub trim_after: bool,
    pub capitalization: Capitalization,
}

/// A rule, as a value of the specification.
pub ghost struct RuleView {
    pub search: Seq<char>,
    pub replace: Seq<char>,
    pub is_regex: bool,
    pub enabled: bool,
    pub trim_before: bool,
    pub trim_after: bool,
    pub capitalization: Capitalization,
}

impl View for Replacement {
    type V = RuleView;

    open spec fn view(&self) -> RuleView {
        RuleView {
            search: self.search@,
            replace: self.replace@,
            is_regex: self.is_regex,
            enabled: self.enabled,
            trim_before: self.trim_before,
            trim_after: self.trim_after,
            capitalization: self.capitalization,
        }
    }
}

/// The views of some rules.
pub open spec fn rules_view(v: Seq<Replacement>) -> Seq<RuleView> {
    v.map_values(|r: Replacement| r@)
}

/// `s` with its first character in upper case (which may be more than one
/// character) and the rest untouched.
pub open spec fn capitalized(s: Seq<char>) -> Seq<char> {
    if s.len() == 0 {
        Seq::empty()
    } else {
        char_uppercase(s[0]) + s.skip(1)
    }
}

/// Capitalize the first character of a string, leaving the rest untouched.
pub fn capitalize_first(s: &str) -> (r: String)
    ensures
        r@ == capitalized(s@),
{
    let c = chars_of(s);
    if c.len() == 0 {
        return String::new();
    }
    let first = uppercase_char(c[0]);
    let mut v = chars_of(first.as_str());
    let mut i: usize = 1;
    while i < c.len()
        invariant
            1 <= i <= c@.len(),
            c@ == s@,
            v@ == char_uppercase(c@[0]) + c@.subrange(1, i as int),
        decreases c.len() - i,
    {
        v.push(c[i]);
        proof {
            assert(c@.subrange(1, i + 1) =~= c@.subrange(1, i as int).push(c@[i as int]));
            assert(char_uppercase(c@[0]) + c@.subrange(1, i + 1) =~= (char_uppercase(c@[0])
                + c@.subrange(1, i as int)).push(c@[i as int]));
        }
        i += 1;
    }
    proof {
        assert(c@.subrange(1, c@.len() as int) =~= s@.skip(1));
    }
    string_from_chars(v.as_slice())
}

/// A word character of a regular expression's `\b`: a letter, a digit or an
/// underscore.
pub open spec fn is_word_char(c: char) -> bool {
    char_is_alphanumeric(c) || c == '_'
}

/// A word boundary assertion.
pub const WORD_BOUNDARY: &'static str = "\\b";

/// Opens a non-capturing group.
pub const GROUP_OPEN: &'static str = "(?:";

/// Separates alternatives.
pub const ALTERNATIVE: &'static str = "|";

/// Closes a group.
pub const GROUP_CLOSE: &'static str = ")";

/// Optional whitespace.
pub const ANY_SPACE: &'static str = "\\s*";

/// The pattern of a literal rule: the search text escaped so it matches
/// verbatim, except that its first character matches in either case, and
/// anchored to word boundaries on each side that begins or ends with a word
/// character.
pub open spec fn literal_pattern_spec(search: Seq<char>) -> Seq<char> {
    if search.len() == 0 {
        Seq::empty()
    } else {
        let first = search[0];
        let rest = regex_escaped(search.skip(1));
        let lower = char_lowercase(first);
        let upper = char_uppercase(first);
        let body = if lower == upper {
            regex_escaped(lower) + rest
        } else {
            GROUP_OPEN@ + regex_escaped(lower) + ALTERNATIVE@ + regex_escaped(upper) + GROUP_CLOSE@
                + rest
        };
        let open = if is_word_char(first) {
            WORD_BOUNDARY@
        } else {
            Seq::empty()
        };
        let close = if is_word_char(search.last()) {
            WORD_BOUNDARY@
        } else {
            Seq::empty()
        };
        open + body + close
    }
}

/// Build the pattern of a literal rule (see `literal_pattern_spec`). Only
/// the first character is case-flexible, so an all-caps acronym rule does
/// not rewrite an ordinary lowercase word; alternation rather than a
/// character class keeps a case mapping of several characters (ß to SS)
/// working.
pub fn literal_pattern(search: &str) -> (r: String)
    ensures
        r@ == literal_pattern_spec(search@),
{
    let c = chars_of(search);
    if c.len() == 0 {
        return String::new();
    }
    let first = c[0];
    let mut tail: Vec<char> = Vec::new();
    let mut i: usize = 1;
    while i < c.len()
        invariant
            1 <= i <= c@.len(),
            tail@ == c@.subrange(1, i as int),
        decreases c.len() - i,
    {
        tail.push(c[i]);
        proof {
            assert(c@.subrange(1, i + 1) =~= c@.subrange(1, i as int).push(c@[i as int]));
        }
        i += 1;
    }
    proof {
        assert(c@.subrange(1, c@.len() as int) =~= search@.skip(1));
    }
    let rest = escape(string_from_chars(tail.as_slice()).as_str());
    let lower = lowercase_char(first);
    let upper = uppercase_char(first);
    let body = if lower == upper {
        let l = escape(lower.as_str());
        concat(l.as_str(), rest.as_str())
    } else {
        let l = escape(lower.as_str());
        let u = escape(upper.as_str());
        let b = concat(GROUP_OPEN, l.as_str());
        let b = concat(b.as_str(), ALTERNATIVE);
        let b = concat(b.as_str(), u.as_str());
        let b = concat(b.as_str(), GROUP_CLOSE);
        concat(b.as_str(), rest.as_str())
    };
    let last = c[c.len() - 1];
    let open: &str = if is_alphanumeric(first) || first == '_' {
        WORD_BOUNDARY
    } else {
        ""
    };
    let close: &str = if is_alphanumeric(last) || last == '_' {
        WORD_BOUNDARY
    } else {
        ""
    };
    proof {
        reveal_strlit("");
        assert(""@ =~= Seq::<char>::empty());
    }
    let p = concat(open, body.as_str());
    concat(p.as_str(), close)
}

/// The magic tokens.
pub const UPPERCASE_TOKEN: &'static str = "[uppercase]";
pub const UPPER_TOKEN: &'static str = "[upper]";
pub const LOWERCASE_TOKEN: &'static str = "[lowercase]";
pub const LOWER_TOKEN: &'static str = "[lower]";
pub const CAPITALIZE_TOKEN: &'static str = "[capitalize]";
pub const NOSPACE_TOKEN: &'static str = "[nospace]";
pub const DATE_TOKEN: &'static str = "[date]";
pub const TIME_TOKEN: &'static str = "[time]";

/// The output of a rule's replacement template, given the local `date` and
/// `time`: the transform tokens are detected and removed, the date and time
/// tokens expanded, the transforms applied (lowercase, uppercase,
/// capitalize, no spaces, in that order), and the rule's capitalization
/// applied last.
pub open spec fn expand_spec(
    template: Seq<char>,
    capitalization: Capitalization,
    date: Seq<char>,
    time: Seq<char>,
) -> Seq<char> {
    let up = has_substring(template, UPPERCASE_TOKEN@) || has_substring(template, UPPER_TOKEN@);
    let w1 = replaced(replaced(template, UPPERCASE_TOKEN@, Seq::empty()), UPPER_TOKEN@, Seq::empty());
    let low = has_substring(w1, LOWERCASE_TOKEN@) || has_substring(w1, LOWER_TOKEN@);
    let w2 = replaced(replaced(w1, LOWERCASE_TOKEN@, Seq::empty()), LOWER_TOKEN@, Seq::empty());
    let cap = has_substring(w2, CAPITALIZE_TOKEN@);
    let w3 = replaced(w2, CAPITALIZE_TOKEN@, Seq::empty());
    let nospace = has_substring(w3, NOSPACE_TOKEN@);
    let w4 = replaced(w3, NOSPACE_TOKEN@, Seq::empty());
    let w5 = if has_substring(w4, DATE_TOKEN@) || has_substring(w4, TIME_TOKEN@) {
        replaced(replaced(w4, DATE_TOKEN@, date), TIME_TOKEN@, time)
    } else {
        w4
    };
    let w6 = if low {
        lowercase(w5)
    } else {
        w5
    };
    let w7 = if up {
        uppercase(w6)
    } else {
        w6
    };
    let w8 = if cap {
        capitalized(w7)
    } else {
        w7
    };
    let w9 = if nospace {
        without_whitespace(w8)
    } else {
        w8
    };
    match capitalization {
        Capitalization::AsIs => w9,
        Capitalization::Uppercase => uppercase(w9),
        Capitalization::Lowercase => lowercase(w9),
        Capitalization::Capitalize => capitalized(w9),
    }
}

/// Whether a template needs the clock: it has a date or time token once the
/// transform tokens are gone.
pub open spec fn needs_clock(template: Seq<char>) -> bool {
    let w1 = replaced(replaced(template, UPPERCASE_TOKEN@, Seq::empty()), UPPER_TOKEN@, Seq::empty());
    let w2 = replaced(replaced(w1, LOWERCASE_TOKEN@, Seq::empty()), LOWER_TOKEN@, Seq::empty());
    let w4 = replaced(replaced(w2, CAPITALIZE_TOKEN@, Seq::empty()), NOSPACE_TOKEN@, Seq::empty());
    has_substring(w4, DATE_TOKEN@) || has_substring(w4, TIME_TOKEN@)
}

/// Expand a replacement template at a given local date and time (see
/// `expand_spec`).
pub fn expand_replacement_at(
    template: &str,
    capitalization: Capitalization,
    date: &str,
    time: &str,
) -> (r: String)
    ensures
        r@ == expand_spec(template@, capitalization, date@, time@),
{
    proof {
        reveal_strlit("");
        assert(""@ =~= Seq::<char>::empty());
    }
    let up = str_contains(template, UPPERCASE_TOKEN) || str_contains(template, UPPER_TOKEN);
    let w = replace_text(template, UPPERCASE_TOKEN, "");
    let w1 = replace_text(w.as_str(), UPPER_TOKEN, "");
    let low = str_contains(w1.as_str(), LOWERCASE_TOKEN) || str_contains(w1.as_str(), LOWER_TOKEN);
    let w = replace_text(w1.as_str(), LOWERCASE_TOKEN, "");
    let w2 = replace_text(w.as_str(), LOWER_TOKEN, "");
    let cap = str_contains(w2.as_str(), CAPITALIZE_TOKEN);
    let w3 = replace_text(w2.as_str(), CAPITALIZE_TOKEN, "");
    let nospace = str_contains(w3.as_str(), NOSPACE_TOKEN);
    let w4 = replace_text(w3.as_str(), NOSPACE_TOKEN, "");
    let w5 = if str_contains(w4.as_str(), DATE_TOKEN) || str_contains(w4.as_str(), TIME_TOKEN) {
        let d = replace_text(w4.as_str(), DATE_TOKEN, date);
        replace_text(d.as_str(), TIME_TOKEN, time)
    } else {
        w4
    };
    let w6 = if low {
        to_lowercase(w5.as_str())
    } else {
        w5
    };
    let w7 = if up {
        to_uppercase(w6.as_str())
    } else {
        w6
    };
    let w8 = if cap {
        capitalize_first(w7.as_str())
    } else {
        w7
    };
    let w9 = if nospace {
        remove_whitespace(w8.as_str())
    } else {
        w8
    };
    match capitalization {
        Capitalization::AsIs => w9,
        Capitalization::Uppercase => to_uppercase(w9.as_str()),
        Capitalization::Lowercase => to_lowercase(w9.as_str()),
        Capitalization::Capitalize => capitalize_first(w9.as_str()),
    }
}

/// Expand a replacement template, reading the clock only when the template
/// has a date or time token. Whatever the clock read, the result is then the
/// template expanded at a date and a time in the forms that `date_text` and
/// `time_text` state.
pub fn expand_replacement(template: &str, capitalization: Capitalization) -> (r: String)
    ensures
        needs_clock(template@) ==> exists|date: Seq<char>, time: Seq<char>|
            #![trigger date_text(date), time_text(time)]
            date_text(date) && time_text(time) && r@ == expand_spec(
                template@,
                capitalization,
                date,
                time,
            ),
        !needs_clock(template@) ==> r@ == expand_spec(
            template@,
            capitalization,
            Seq::empty(),
            Seq::empty(),
        ),
{
    proof {
        reveal_strlit("");
        assert(""@ =~= Seq::<char>::empty());
    }
    let w = replace_text(template, UPPERCASE_TOKEN, "");
    let w = replace_text(w.as_str(), UPPER_TOKEN, "");
    let w = replace_text(w.as_str(), LOWERCASE_TOKEN, "");
    let w = replace_text(w.as_str(), LOWER_TOKEN, "");
    let w = replace_text(w.as_str(), CAPITALIZE_TOKEN, "");
    let w = replace_text(w.as_str(), NOSPACE_TOKEN, "");
    if str_contains(w.as_str(), DATE_TOKEN) || str_contains(w.as_str(), TIME_TOKEN) {
        let (date, time, _) = local_now_texts(DATE_FORMAT, TIME_FORMAT, DATETIME_LINE_FORMAT);
        expand_replacement_at(template, capitalization, date.as_str(), time.as_str())
    } else {
        expand_replacement_at(template, capitalization, "", "")
    }
}

/// The full pattern of a rule: its core (the search text as a regular
/// expression, or the literal pattern), grouped, with optional whitespace
/// before and after when the rule trims there.
pub open spec fn rule_pattern(rule: RuleView) -> Seq<char> {
    let core = if rule.is_regex {
        rule.search
    } else {
        literal_pattern_spec(rule.search)
    };
    (if rule.trim_before {
        ANY_SPACE@
    } else {
        Seq::empty()
    }) + GROUP_OPEN@ + core + GROUP_CLOSE@ + (if rule.trim_after {
        ANY_SPACE@
    } else {
        Seq::empty()
    })
}

/// Whether a rule reads the clock when it is applied: it is enabled, has a
/// search, its pattern compiles, and its replacement asks for the date or
/// the time.
pub open spec fn reads_clock(rule: RuleView) -> bool {
    rule.enabled && rule.search.len() > 0 && regex_compiles(rule_pattern(rule)) && needs_clock(
        rule.replace,
    )
}

/// Each rule that reads the clock has, at its position in `stamps`, a date
/// and a time in the forms the clock writes them.
pub open spec fn clock_stamps(rules: Seq<RuleView>, stamps: Seq<(Seq<char>, Seq<char>)>) -> bool {
    forall|i: int|
        0 <= i < rules.len() && i < stamps.len() && #[trigger] reads_clock(rules[i]) ==> date_text(
            stamps[i].0,
        ) && time_text(stamps[i].1)
}

/// A stamp added for a rule keeps the stamps in the clock's forms, when it
/// is in them itself or the rule does not read the clock.
proof fn lemma_clock_stamps_push(
    rules: Seq<RuleView>,
    stamps: Seq<(Seq<char>, Seq<char>)>,
    rule: RuleView,
    stamp: (Seq<char>, Seq<char>),
)
    requires
        clock_stamps(rules, stamps),
        stamps.len() == rules.len(),
        reads_clock(rule) ==> date_text(stamp.0) && time_text(stamp.1),
    ensures
        clock_stamps(rules.push(rule), stamps.push(stamp)),
{
    assert forall|i: int|
        0 <= i < rules.push(rule).len() && i < stamps.push(stamp).len() && #[trigger] reads_clock(
            rules.push(rule)[i],
        ) implies date_text(stamps.push(stamp)[i].0) && time_text(stamps.push(stamp)[i].1) by {
        if i < rules.len() {
            assert(rules.push(rule)[i] == rules[i]);
            assert(stamps.push(stamp)[i] == stamps[i]);
        }
    }
}

/// The text after applying `rules` in order, the rule at each position
/// expanding its template at the date and time at that position of
/// `stamps`. A disabled rule, a rule with an empty search, and a rule whose
/// pattern does not compile are skipped.
pub open spec fn apply_spec(
    text: Seq<char>,
    rules: Seq<RuleView>,
    stamps: Seq<(Seq<char>, Seq<char>)>,
) -> Seq<char>
    decreases rules.len(),
{
    if rules.len() == 0 {
        text
    } else {
        let prev = apply_spec(text, rules.drop_last(), stamps.drop_last());
        let rule = rules.last();
        if !rule.enabled || rule.search.len() == 0 || !regex_compiles(rule_pattern(rule)) {
            prev
        } else {
            regex_replace_all(
                rule_pattern(rule),
                prev,
                expand_spec(rule.replace, rule.capitalization, stamps.last().0, stamps.last().1),
            )
        }
    }
}

/// Build the full pattern of a rule (see `rule_pattern`).
fn pattern_of(rule: &Replacement) -> (r: String)
    ensures
        r@ == rule_pattern(rule@),
{
    proof {
        reveal_strlit("");
        assert(""@ =~= Seq::<char>::empty());
    }
    let core = if rule.is_regex {
        rule.search.clone()
    } else {
        literal_pattern(rule.search.as_str())
    };
    let prefix: &str = if rule.trim_before {
        ANY_SPACE
    } else {
        ""
    };
    let suffix: &str = if rule.trim_after {
        ANY_SPACE
    } else {
        ""
    };
    let p = concat(prefix, GROUP_OPEN);
    let p = concat(p.as_str(), core.as_str());
    let p = concat(p.as_str(), GROUP_CLOSE);
    concat(p.as_str(), suffix)
}

/// Apply the rules to `text`, in order: later rules see the output of
/// earlier ones. Disabled rules, rules with an empty search and rules whose
/// pattern is not a valid regular expression are skipped.
pub fn apply_replacements(text: &str, replacements: &[Replacement]) -> (r: String)
    ensures
        exists|stamps: Seq<(Seq<char>, Seq<char>)>|
            #![trigger apply_spec(text@, rules_view(replacements@), stamps)]
            stamps.len() == replacements@.len() && r@ == apply_spec(
                text@,
                rules_view(replacements@),
                stamps,
            ) && clock_stamps(rules_view(replacements@), stamps),
{
    let ghost rules = rules_view(replacements@);
    let ghost mut stamps: Seq<(Seq<char>, Seq<char>)> = Seq::empty();
    let mut result = text.to_owned();
    let mut i: usize = 0;
    while i < replacements.len()
        invariant
            i <= replacements@.len(),
            rules == rules_view(replacements@),
            stamps.len() == i,
            result@ == apply_spec(text@, rules.take(i as int), stamps),
            clock_stamps(rules.take(i as int), stamps),
        decreases replacements.len() - i,
    {
        let rule = &replacements[i];
        proof {
            assert(rules.take(i + 1).drop_last() =~= rules.take(i as int));
            assert(rules.take(i + 1).last() == rule@);
        }
        if !rule.enabled || rule.search.unicode_len() == 0 {
            proof {
                let next = stamps.push((Seq::empty(), Seq::empty()));
                assert(next.drop_last() =~= stamps);
                lemma_clock_stamps_push(rules.take(i as int), stamps, rule@, (Seq::empty(), Seq::empty()));
                assert(rules.take(i as int).push(rule@) =~= rules.take(i + 1));
                stamps = next;
            }
            i += 1;
            continue;
        }
        let pattern = pattern_of(rule);
        match compile(pattern.as_str()) {
            None => {
                proof {
                    let next = stamps.push((Seq::empty(), Seq::empty()));
                    assert(next.drop_last() =~= stamps);
                    lemma_clock_stamps_push(rules.take(i as int), stamps, rule@, (Seq::empty(), Seq::empty()));
                    assert(rules.take(i as int).push(rule@) =~= rules.take(i + 1));
                    stamps = next;
                }
            },
            Some(compiled) => {
                let replacement = expand_replacement(rule.replace.as_str(), rule.capitalization);
                proof {
                    let (d, t) = if needs_clock(rule.replace@) {
                        choose|d: Seq<char>, t: Seq<char>|
                            date_text(d) && time_text(t) && replacement@ == expand_spec(
                                rule.replace@,
                                rule.capitalization,
                                d,
                                t,
                            )
                    } else {
                        (Seq::empty(), Seq::empty())
                    };
                    let next = stamps.push((d, t));
                    assert(next.drop_last() =~= stamps);
                    lemma_clock_stamps_push(rules.take(i as int), stamps, rule@, (d, t));
                    assert(rules.take(i as int).push(rule@) =~= rules.take(i + 1));
                    stamps = next;
                }
                result = replace_all_literal(&compiled, result.as_str(), replacement.as_str());
            },
        }
        i += 1;
    }
    proof {
        assert(rules.take(replacements@.len() as int) =~= rules);
    }
    result
}


/// Without a `[date]` or `[time]` token, a template expands the same at any
/// date and time.
pub proof fn lemma_expansion_without_clock_is_fixed(
    template: Seq<char>,
    capitalization: Capitalization,
    d1: Seq<char>,
    t1: Seq<char>,
    d2: Seq<char>,
    t2: Seq<char>,
)
    requires
        !needs_clock(template),
    ensures
        expand_spec(template, capitalization, d1, t1) == expand_spec(
            template,
            capitalization,
            d2,
            t2,
        ),
{
}

/// The replacement pass is deterministic: when no rule's replacement asks
/// for the date or the time, the result depends on the text and the rules
/// alone, whatever the clock read.
pub proof fn lemma_rules_without_clock_are_deterministic(
    text: Seq<char>,
    rules: Seq<RuleView>,
    s1: Seq<(Seq<char>, Seq<char>)>,
    s2: Seq<(Seq<char>, Seq<char>)>,
)
    requires
        s1.len() == rules.len(),
        s2.len() == rules.len(),
        forall|i: int| 0 <= i < rules.len() ==> !needs_clock(#[trigger] rules[i].replace),
    ensures
        apply_spec(text, rules, s1) == apply_spec(text, rules, s2),
    decreases rules.len(),
{
    if rules.len() > 0 {
        let rest = rules.drop_last();
        assert forall|i: int| 0 <= i < rest.len() implies !needs_clock(#[trigger] rest[i].replace) by {
            assert(rest[i] == rules[i]);
        }
        lemma_rules_without_clock_are_deterministic(text, rest, s1.drop_last(), s2.drop_last());
        let rule = rules.last();
        assert(!needs_clock(rules[rules.len() - 1].replace));
        lemma_expansion_without_clock_is_fixed(
            rule.replace,
            rule.capitalization,
            s1.last().0,
            s1.last().1,
            s2.last().0,
            s2.last().1,
        );
    }
}

/// Rules that are all disabled or have an empty search leave the text as it
/// is.
pub proof fn lemma_inactive_rules_change_nothing(
    text: Seq<char>,
    rules: Seq<RuleView>,
    stamps: Seq<(Seq<char>, Seq<char>)>,
)
    requires
        forall|i: int|
            0 <= i < rules.len() ==> !(#[trigger] rules[i]).enabled || rules[i].search.len() == 0,
    ensures
        apply_spec(text, rules, stamps) == text,
    decreases rules.len(),
{
    if rules.len() > 0 {
        let rest = rules.drop_last();
        assert forall|i: int| 0 <= i < rest.len() implies !(#[trigger] rest[i]).enabled
            || rest[i].search.len() == 0 by {
            assert(rest[i] == rules[i]);
        }
        lemma_inactive_rules_change_nothing(text, rest, stamps.drop_last());
        assert(!rules[rules.len() - 1].enabled || rules[rules.len() - 1].search.len() == 0);
    }
}

/// A rule's capitalization is applied to its whole output, after everything
/// else: uppercase, lowercase and capitalized output are the uppercase, the
/// lowercase and the capitalized form of what the rule gives with its
/// capitalization left as it is, for every template, date and time.
pub proof fn lemma_capitalization_applies_to_the_output(
    template: Seq<char>,
    date: Seq<char>,
    time: Seq<char>,
)
    ensures
        expand_spec(template, Capitalization::Lowercase, date, time) == lowercase(
            expand_spec(template, Capitalization::AsIs, date, time),
        ),
        expand_spec(template, Capitalization::Uppercase, date, time) == uppercase(
            expand_spec(template, Capitalization::AsIs, date, time),
        ),
        expand_spec(template, Capitalization::Capitalize, date, time) == capitalized(
            expand_spec(template, Capitalization::AsIs, date, time),
        ),
{
}

} // verus!
