use boothrflow::learning::{detect_correction, levenshtein, strip_outer_punct};

#[test]
fn levenshtein_basics() {
    assert_eq!(levenshtein("", ""), 0);
    assert_eq!(levenshtein("kitten", "sitting"), 3);
    assert_eq!(levenshtein("kwen", "qwen"), 1);
    assert_eq!(levenshtein("python", "paython"), 1);
    assert_eq!(levenshtein("abc", "xyz"), 3);
}

#[test]
fn detects_single_word_correction() {
    let out = detect_correction("Install kwen.", "Install qwen.").unwrap();
    assert_eq!(out.wrong, "kwen");
    assert_eq!(out.right, "qwen");
}

#[test]
fn ignores_unchanged_text() {
    assert!(detect_correction("Hello world.", "Hello world.").is_none());
}

#[test]
fn ignores_capitalization_only() {
    assert!(detect_correction("Use Python.", "Use python.").is_none());
    assert!(detect_correction("call API.", "call api.").is_none());
}

#[test]
fn ignores_short_words() {
    assert!(detect_correction("Sip a tea.", "Sip the tea.").is_none());
}

#[test]
fn ignores_multi_word_edits() {
    assert!(detect_correction("Fix the kwen model bug.", "Fix the qwen model issue.").is_none());
}

#[test]
fn ignores_high_distance_edits() {
    assert!(detect_correction("Install elephantine.", "Install programmable.").is_none());
}

#[test]
fn ignores_long_words() {
    let long_a = "abcdefghijklmnopqrstuvwxyz0123456789";
    let long_b = "abcdefghijklmnopqrstuvwxyz012345678X";
    let pasted = format!("Use {long_a}.");
    let current = format!("Use {long_b}.");
    assert!(detect_correction(&pasted, &current).is_none());
}

#[test]
fn detects_correction_with_surrounding_text() {
    let pasted = "install kwen for the cleanup pass.";
    let current = "install qwen for the cleanup pass.";
    let out = detect_correction(pasted, current).unwrap();
    assert_eq!(out.wrong, "kwen");
    assert_eq!(out.right, "qwen");
}

#[test]
fn strips_outer_punct() {
    assert_eq!(strip_outer_punct("\"Qwen,\""), "Qwen");
    assert_eq!(strip_outer_punct("end."), "end");
    assert_eq!(strip_outer_punct("don't"), "don't");
    assert_eq!(strip_outer_punct("self-host"), "self-host");
}

#[test]
fn ignores_empty_or_whitespace_only() {
    assert!(detect_correction("", "").is_none());
    assert!(detect_correction("   ", "hello world").is_none());
}

#[test]
fn levenshtein_is_symmetric_on_examples() {
    assert_eq!(levenshtein("sitting", "kitten"), levenshtein("kitten", "sitting"));
    assert_eq!(levenshtein("qwen", "kwen"), 1);
    assert_eq!(levenshtein("same", "same"), 0);
}

#[test]
fn reported_pairs_pass_the_filters() {
    let out = detect_correction("Ship the pythn code.", "Ship the python code.").unwrap();
    assert_eq!(out.wrong, "pythn");
    assert_eq!(out.right, "python");
    assert!(levenshtein(&out.wrong, &out.right) <= 2);
}

#[test]
fn levenshtein_counts_multibyte_characters_once() {
    assert_eq!(levenshtein("café", "cafe"), 1);
}

#[test]
fn levenshtein_zero_only_for_equal_and_bounded_below_by_length_gap() {
    assert_eq!(levenshtein("same", "same"), 0);
    assert!(levenshtein("same", "sane") > 0);
    assert_eq!(levenshtein("ab", "abcdef"), 4);
    assert!(levenshtein("a", "xyzw") >= 3);
}
