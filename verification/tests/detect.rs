use speakoflow::text::trim;
use speakoflow::autolearn::detect::{align, detect, evaluate, Correction, Op, MAX_PER_DICTATION, MAX_WORD_LEN};

fn known(words: &[&str]) -> Vec<String> {
    words.iter().map(|word| word.to_lowercase()).collect()
}

fn none() -> Vec<String> {
    Vec::new()
}

#[test]
fn a_corrected_name_is_learned() {
    let corrections = detect(
        "email brali about the invoice",
        "email Barali about the invoice",
        &none(),
    );
    assert_eq!(
        corrections,
        vec![Correction {
            from: "brali".into(),
            to: "Barali".into()
        }]
    );
}

#[test]
fn a_capitalisation_fix_is_learned() {
    assert_eq!(
        detect(
            "call the kubernetes team",
            "call the Kubernetes team",
            &none()
        ),
        vec![Correction {
            from: "kubernetes".into(),
            to: "Kubernetes".into()
        }]
    );
}

#[test]
fn an_untouched_transcript_teaches_nothing() {
    assert!(detect(
        "the invoice is due Friday",
        "the invoice is due Friday",
        &none()
    )
    .is_empty());
}

#[test]
fn a_changed_mind_is_not_a_correction() {
    assert!(detect(
        "we should book the venue",
        "we should book the hotel",
        &none()
    )
    .is_empty());
}

#[test]
fn a_rewritten_sentence_teaches_nothing() {
    assert!(detect(
        "one two three four five six",
        "alpha bravo charlie four delta echo",
        &none()
    )
    .is_empty());
}

#[test]
fn insertions_and_deletions_are_not_corrections() {
    assert!(detect(
        "send the invoice tomorrow",
        "send the invoice tomorrow please",
        &none()
    )
    .is_empty());
    assert!(detect("send the invoice tomorrow", "send the invoice", &none()).is_empty());
}

#[test]
fn short_words_are_not_learned() {
    assert!(evaluate("cat", "bat").is_none());
    assert!(evaluate("the", "teh").is_none());
    assert!(evaluate("thing", "hng").is_none());
}

#[test]
fn a_typo_is_indistinguishable_from_a_correction() {
    assert!(evaluate("kubernets", "kubernetes").is_some());
    assert!(evaluate("kubernetes", "kubernets").is_some());
}

#[test]
fn absurdly_long_words_are_not_learned() {
    let long = "a".repeat(MAX_WORD_LEN + 1);
    assert!(evaluate("aaaa", &long).is_none());
}

#[test]
fn numbers_are_not_learned() {
    assert!(evaluate("2025", "2026").is_none());
    assert!(evaluate("v1beta", "v1beta2").is_none());
}

#[test]
fn apostrophes_and_hyphens_survive_inside_a_word() {
    assert!(evaluate("obrien", "O'Brien").is_some());
    assert!(evaluate("jeanluc", "Jean-Luc").is_some());
    assert!(evaluate("word", "-----").is_none());
    assert!(evaluate("word", "-lead").is_none());
    assert!(evaluate("word", "trail-").is_none());
}

#[test]
fn a_punctuation_only_change_is_not_a_correction() {
    assert_eq!(evaluate("invoice,", "invoice"), None);
    assert_eq!(evaluate("invoice", "invoice."), None);
}

#[test]
fn punctuation_is_stripped_from_what_is_learned() {
    let correction = evaluate("brali,", "Barali.").expect("still a correction");
    assert_eq!(correction.to, "Barali");
    assert_eq!(correction.from, "brali");
}

#[test]
fn a_word_already_in_the_dictionary_is_not_learned_again() {
    assert!(detect(
        "email brali about it",
        "email Barali about it",
        &known(&["barali"])
    )
    .is_empty());
}

#[test]
fn the_known_check_ignores_casing() {
    assert!(detect(
        "email brali about it",
        "email Barali about it",
        &known(&["BARALI"])
    )
    .is_empty());
}

#[test]
fn no_more_than_the_cap_is_learned_from_one_dictation() {
    let pasted = "kubernetes prometheus grafana terraform alpha bravo charlie delta echo foxtrot golf hotel";
    let edited = "Kubernetes Prometheus Grafana Terraform alpha bravo charlie delta echo foxtrot golf hotel";
    let corrections = detect(pasted, edited, &none());
    assert_eq!(corrections.len(), MAX_PER_DICTATION);
}

#[test]
fn the_same_correction_twice_is_learned_once() {
    let corrections = detect(
        "brali and brali again here",
        "Barali and Barali again here",
        &none(),
    );
    assert_eq!(corrections.len(), 1);
}

#[test]
fn surrounding_text_does_not_defeat_detection() {
    let pasted = "please email brali about the invoice";
    let edited =
        "Hi team, I wrote this myself. please email Barali about the invoice. Thanks, me.";
    assert_eq!(
        detect(pasted, edited, &none()),
        vec![Correction {
            from: "brali".into(),
            to: "Barali".into()
        }]
    );
}

#[test]
fn a_deleted_transcript_teaches_nothing() {
    assert!(detect(
        "email brali about the invoice",
        "completely different content entirely unrelated",
        &none()
    )
    .is_empty());
}

#[test]
fn empty_input_teaches_nothing() {
    assert!(detect("", "anything", &none()).is_empty());
    assert!(detect("something", "", &none()).is_empty());
    assert!(detect("", "", &none()).is_empty());
}

#[test]
fn devanagari_does_not_panic() {
    let corrections = detect("मीटिंग के नोट्स लिखो", "मीटिंग के नोट्स लिखें", &none());
    for correction in &corrections {
        assert!(!correction.to.is_empty());
    }
}

#[test]
fn a_devanagari_word_can_be_learned() {
    assert!(evaluate("अभिषेक", "अभिषेकजी").is_some());
}

#[test]
fn alignment_reports_a_substitution_as_a_replace() {
    let ops = align(&["a", "brali", "c"], &["a", "Barali", "c"]);
    assert!(ops
        .iter()
        .any(|op| matches!(op, Op::Replace(from, to) if from == "brali" && to == "Barali")));
}

#[test]
fn alignment_of_identical_sequences_is_all_keeps() {
    let ops = align(&["a", "b"], &["a", "b"]);
    assert!(ops.iter().all(|op| matches!(op, Op::Keep(_, _))));
}

#[test]
fn alignment_handles_empty_sequences() {
    assert!(align(&[], &[]).is_empty());
    assert_eq!(align(&["a"], &[]).len(), 1);
    assert_eq!(align(&[], &["a"]).len(), 1);
}

// The alignment is a cheapest edit script and accounts for every word.
#[test]
fn alignment_of_a_one_word_fix_changes_one_word_and_keeps_the_rest() {
    let ops = align(&["send", "the", "invoice"], &["send", "an", "invoice", "now"]);
    assert_eq!(
        ops,
        vec![
            Op::Keep(0, 0),
            Op::Replace("the".into(), "an".into()),
            Op::Keep(2, 2),
            Op::Insert("now".into()),
        ]
    );
}

// Punctuation around a word is not a change, but the step carries the word as given.
#[test]
fn alignment_ignores_surrounding_punctuation() {
    let ops = align(&["invoice."], &["invoice"]);
    assert_eq!(ops, vec![Op::Keep(0, 0)]);
    let ops = align(&["brali,"], &["Barali."]);
    assert_eq!(ops, vec![Op::Replace("brali,".into(), "Barali.".into())]);
}

// A deletion is reported with the deleted word.
#[test]
fn alignment_reports_a_deletion() {
    let ops = align(&["a", "b", "c"], &["a", "c"]);
    assert_eq!(ops, vec![Op::Keep(0, 0), Op::Delete("b".into()), Op::Keep(2, 1)]);
}

// The similarity floor: 1 - distance / length at least 11/20.
#[test]
fn the_similarity_floor_is_applied_to_lowercase_forms() {
    // "brali" vs "barali": distance 1 over 6, similar enough.
    assert!(evaluate("brali", "Barali").is_some());
    // "venue" vs "hotel": distance 5 over 5, a rewrite.
    assert!(evaluate("venue", "hotel").is_none());
    // "invoice" vs "elephant": not similar.
    assert!(evaluate("invoice", "elephant").is_none());
    // Exactly at the floor is accepted: "abcdefghijklmnopqrst" vs a word 9 edits away
    // over 20 letters (1 - 9/20 = 0.55).
    assert!(evaluate("abcdefghijklmnopqrst", "abcdefghijkxxxxxxxxx").is_some());
    // One edit more falls below it.
    assert!(evaluate("abcdefghijklmnopqrst", "abcdefghijxxxxxxxxxx").is_none());
}

// The edit ratio: more than 2 of 5 words changed is a rewrite.
#[test]
fn the_edit_ratio_boundary_is_two_in_five() {
    // Two of five words changed: exactly 0.4, still a correction.
    let c = detect(
        "ask brali about kubernets today",
        "ask Barali about kubernetes today",
        &none(),
    );
    assert_eq!(c.len(), 2);
    // Three of five words changed: a rewrite.
    assert!(detect(
        "ask brali about kubernets today",
        "ask Barali abut kubernetes today",
        &none()
    )
    .is_empty());
    // A shorter window that drops a changed word at the end wins a tie on cost,
    // being the earlier and shorter one; that word is then not compared at all.
    let c = detect(
        "please email brali about kubernets",
        "please email Barali about kubernetes",
        &none(),
    );
    assert_eq!(c.len(), 1);
}

// A substitution weighs as an insertion plus a deletion: keeping a word that
// moved beats replacing both.
#[test]
fn a_moved_word_is_kept_rather_than_two_words_replaced() {
    let ops = align(&["a", "x"], &["y", "a"]);
    assert_eq!(ops, vec![Op::Insert("y".into()), Op::Keep(0, 1), Op::Delete("x".into())]);
}

#[test]
fn an_accepted_correction_is_accepted_again_as_it_stands() {
    let c = evaluate("\"kubernets,", "(Kubernetes).").expect("a correction");
    assert_eq!((c.from.as_str(), c.to.as_str()), ("kubernets", "Kubernetes"));
    assert_eq!(evaluate(&c.from, &c.to), Some(c.clone()));
}

#[test]
fn trimming_removes_exactly_the_unicode_white_space() {
    assert_eq!(trim("\u{3000}\u{85} word\u{2029}\u{a0}\t"), "word");
    assert_eq!(trim("\u{1c}word\u{200b}"), "\u{1c}word\u{200b}");
    assert_eq!(trim(" \u{205f}\u{202f}\u{1680}\u{2000}\u{200a}\u{2028}\u{b}\u{c}\r\n"), "");
}
