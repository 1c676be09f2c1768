use regex::Regex;
use speakoflow::audio::replacements::{
    apply_replacements, capitalize_first, expand_replacement, expand_replacement_at, literal_pattern, Capitalization,
    Replacement,
};

fn rule(search: &str, replace: &str) -> Replacement {
    Replacement {
        search: search.to_string(),
        replace: replace.to_string(),
        is_regex: false,
        enabled: true,
        trim_before: false,
        trim_after: false,
        capitalization: Capitalization::AsIs,
    }
}

#[test]
fn literal_rule_matches_whole_words_only() {
    let acronym = vec![rule("US", "United States")];
    assert_eq!(
        apply_replacements("USA today", &acronym),
        "USA today",
        "a rule must not fire inside a longer word"
    );
    assert_eq!(
        apply_replacements("the US economy", &acronym),
        "the United States economy"
    );

    let short = vec![rule("clod", "cloud")];
    assert_eq!(apply_replacements("unclod it", &short), "unclod it");
    assert_eq!(
        apply_replacements("clods everywhere", &short),
        "clods everywhere"
    );
    assert_eq!(apply_replacements("ask clod now", &short), "ask cloud now");
    assert_eq!(
        apply_replacements("ask clod, then wait", &short),
        "ask cloud, then wait"
    );
}

#[test]
fn punctuation_rules_are_not_boundary_anchored() {
    let rules = vec![rule(":)", "🙂")];
    assert_eq!(apply_replacements("nice :) ok", &rules), "nice 🙂 ok");
    assert_eq!(apply_replacements("nice:)ok", &rules), "nice🙂ok");
}

#[test]
fn literal_replacement() {
    let rules = vec![rule("teh", "the")];
    assert_eq!(apply_replacements("teh cat", &rules), "the cat");
}

#[test]
fn literal_rule_tolerates_a_capitalized_first_character() {
    let rules = vec![rule("my name", "Alex Rivera")];
    assert_eq!(
        apply_replacements("my name is on the contract", &rules),
        "Alex Rivera is on the contract"
    );
    assert_eq!(
        apply_replacements("My name is on the contract", &rules),
        "Alex Rivera is on the contract",
        "positional capitalization must not break the rule"
    );
    assert_eq!(
        apply_replacements("The contract is signed. My name is on page four.", &rules),
        "The contract is signed. Alex Rivera is on page four.",
        "capitalization after a sentence boundary must not break the rule"
    );
}

#[test]
fn only_the_first_character_is_case_flexible() {
    let acronym = vec![rule("US", "United States")];
    assert_eq!(
        apply_replacements("between us and them", &acronym),
        "between us and them",
        "a lowercase word must not match an all-caps acronym rule"
    );
    assert_eq!(
        apply_replacements("US exports rose", &acronym),
        "United States exports rose",
        "the rule still matches its own spelling"
    );

    let rules = vec![rule("my Name", "X")];
    assert_eq!(apply_replacements("my name here", &rules), "my name here");
}

#[test]
fn case_flexibility_handles_non_alphabetic_and_wide_case_mappings() {
    assert_eq!(
        apply_replacements("call 4030 now", &[rule("4030", "5150")]),
        "call 5150 now"
    );
    let rules = vec![rule("ßeta", "beta")];
    assert_eq!(
        apply_replacements("the ßeta build", &rules),
        "the beta build"
    );
    assert_eq!(
        apply_replacements("the SSeta build", &rules),
        "the beta build"
    );
}

#[test]
fn literal_is_not_treated_as_regex() {
    let rules = vec![rule("(c)", "©")];
    assert_eq!(apply_replacements("foo (c) bar", &rules), "foo © bar");
}

#[test]
fn replacement_with_dollar_is_literal() {
    let rules = vec![rule("price", "$1")];
    assert_eq!(apply_replacements("the price", &rules), "the $1");
}

#[test]
fn disabled_rule_is_skipped() {
    let mut r = rule("teh", "the");
    r.enabled = false;
    assert_eq!(apply_replacements("teh cat", &[r]), "teh cat");
}

#[test]
fn empty_search_is_skipped() {
    let rules = vec![rule("", "x")];
    assert_eq!(apply_replacements("hello", &rules), "hello");
}

#[test]
fn regex_replacement() {
    let mut r = rule(r"\bcolour\b", "color");
    r.is_regex = true;
    assert_eq!(
        apply_replacements("my favourite colour", &[r]),
        "my favourite color"
    );
}

#[test]
fn invalid_regex_is_skipped_not_panicking() {
    let mut r = rule("(unclosed", "x");
    r.is_regex = true;
    assert_eq!(
        apply_replacements("(unclosed group", &[r]),
        "(unclosed group"
    );
}

#[test]
fn rules_apply_in_order() {
    let rules = vec![rule("a", "b"), rule("b", "c")];
    assert_eq!(apply_replacements("a", &rules), "c");
}

#[test]
fn trim_before_removes_preceding_whitespace() {
    let mut r = rule(",", ",");
    r.trim_before = true;
    assert_eq!(apply_replacements("hello , world", &[r]), "hello, world");
}

#[test]
fn trim_after_removes_following_whitespace() {
    let mut r = rule("(", "(");
    r.trim_after = true;
    assert_eq!(apply_replacements("foo (  bar)", &[r]), "foo (bar)");
}

#[test]
fn magic_uppercase_transform() {
    let rules = vec![rule("acme", "[uppercase]acme")];
    assert_eq!(apply_replacements("acme corp", &rules), "ACME corp");
}

#[test]
fn magic_lowercase_transform() {
    let rules = vec![rule("SHOUT", "[lowercase]quiet")];
    assert_eq!(apply_replacements("SHOUT now", &rules), "quiet now");
}

#[test]
fn magic_capitalize_transform() {
    let rules = vec![rule("name", "[capitalize]john")];
    assert_eq!(apply_replacements("name here", &rules), "John here");
}

#[test]
fn magic_nospace_transform() {
    let rules = vec![rule("brand", "[nospace]my brand")];
    assert_eq!(apply_replacements("brand", &rules), "mybrand");
}

#[test]
fn capitalization_field_applies() {
    let mut r = rule("ceo", "ceo");
    r.capitalization = Capitalization::Uppercase;
    assert_eq!(apply_replacements("the ceo spoke", &[r]), "the CEO spoke");
}

#[test]
fn date_token_is_expanded() {
    let rules = vec![rule("today", "[date]")];
    let out = apply_replacements("today", &rules);
    assert!(!out.contains("[date]"), "token should be expanded: {out}");
    let re = Regex::new(r"^\d{4}-\d{2}-\d{2}$").unwrap();
    assert!(re.is_match(&out), "unexpected date format: {out}");
}

#[test]
fn time_token_is_expanded() {
    let rules = vec![rule("now", "[time]")];
    let out = apply_replacements("now", &rules);
    assert!(!out.contains("[time]"));
    let re = Regex::new(r"^\d{2}:\d{2}$").unwrap();
    assert!(re.is_match(&out), "unexpected time format: {out}");
}

#[test]
fn a_literal_pattern_is_escaped_anchored_and_first_letter_flexible() {
    assert_eq!(literal_pattern("my name"), r"\b(?:m|M)y name\b");
    assert_eq!(literal_pattern("(c)"), r"\(c\)");
    assert_eq!(literal_pattern("4030"), r"\b4030\b");
    assert_eq!(literal_pattern("ßeta"), r"\b(?:ß|SS)eta\b");
    assert_eq!(literal_pattern(""), "");
}

#[test]
fn templates_expand_at_a_given_time() {
    assert_eq!(
        expand_replacement_at("[date] [time]", Capitalization::AsIs, "2026-06-20", "14:34"),
        "2026-06-20 14:34"
    );
    assert_eq!(
        expand_replacement_at("[upper]met on [date]", Capitalization::AsIs, "2026-06-20", "x"),
        "MET ON 2026-06-20"
    );
    assert_eq!(
        expand_replacement_at("hello world", Capitalization::Capitalize, "", ""),
        "Hello world"
    );
    assert_eq!(
        expand_replacement_at("[lower][nospace]A B C", Capitalization::AsIs, "", ""),
        "abc"
    );
}

#[test]
fn the_first_character_is_capitalised() {
    assert_eq!(capitalize_first("hello world"), "Hello world");
    assert_eq!(capitalize_first(""), "");
    assert_eq!(capitalize_first("ßtraße"), "SStraße");
    assert_eq!(capitalize_first("1st"), "1st");
}

#[test]
fn without_clock_tokens_the_pass_is_repeatable() {
    let mut shout = rule("hello", "hi [uppercase]");
    shout.trim_after = true;
    let rules = vec![shout, rule("world", "earth [capitalize]"), rule("teh", "the")];
    let first = apply_replacements("teh hello world", &rules);
    let second = apply_replacements("teh hello world", &rules);
    assert_eq!(first, second);
    assert_eq!(first, "the HI Earth ");
}

#[test]
fn inactive_rules_change_nothing() {
    let mut off = rule("cat", "dog");
    off.enabled = false;
    let rules = vec![off, rule("", "x")];
    assert_eq!(apply_replacements("the cat sat", &rules), "the cat sat");
}

#[test]
fn date_and_time_tokens_expand_to_the_clock_forms() {
    let out = expand_replacement("[date] at [time]", Capitalization::AsIs);
    let re = Regex::new(r"^[0-9]{4}-(0[1-9]|1[0-2])-(0[1-9]|[12][0-9]|3[01]) at ([01][0-9]|2[0-3]):[0-5][0-9]$").unwrap();
    assert!(re.is_match(&out), "unexpected expansion: {out}");
    assert_eq!(expand_replacement("no clock [upper]here", Capitalization::AsIs), "NO CLOCK HERE");
}
