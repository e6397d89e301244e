use boothrflow::streaming::{dedupe_suffix_prefix, local_agreement_2, StreamingState};

fn toks(s: &str) -> Vec<String> {
    s.split_whitespace().map(String::from).collect()
}

#[test]
fn dedupe_strips_overlap() {
    let out = dedupe_suffix_prefix("the quick brown fox jumped over", "fox jumped over the lazy dog");
    assert_eq!(out, "the lazy dog");
}

#[test]
fn dedupe_handles_full_overlap() {
    let out = dedupe_suffix_prefix("alpha bravo charlie", "bravo charlie");
    assert_eq!(out, "");
}

#[test]
fn dedupe_no_overlap_passes_through() {
    let out = dedupe_suffix_prefix("the quick brown", "fox jumped over");
    assert_eq!(out, "fox jumped over");
}

#[test]
fn dedupe_is_case_and_punct_insensitive() {
    let out = dedupe_suffix_prefix("ran the deploy", "Ran the deploy, then waited");
    assert_eq!(out, "then waited");
}

#[test]
fn dedupe_caps_lookback() {
    let frozen = (0..30).map(|i| format!("w{i}")).collect::<Vec<_>>().join(" ");
    let fresh = format!("{frozen} extra");
    let out = dedupe_suffix_prefix(&frozen, &fresh);
    assert_eq!(out, fresh);
}

#[test]
fn dedupe_empty_inputs_are_safe() {
    assert_eq!(dedupe_suffix_prefix("", "fresh text"), "fresh text");
    assert_eq!(dedupe_suffix_prefix("frozen text", ""), "");
}

#[test]
fn first_pass_has_no_committed() {
    let (committed, tentative) = local_agreement_2(None, &toks("hello world"));
    assert_eq!(committed, "");
    assert_eq!(tentative, "hello world");
}

#[test]
fn full_agreement_commits_everything() {
    let prev = toks("the quick brown");
    let cur = toks("the quick brown");
    let (committed, tentative) = local_agreement_2(Some(prev.as_slice()), &cur);
    assert_eq!(committed, "the quick brown");
    assert_eq!(tentative, "");
}

#[test]
fn shared_prefix_commits_only_prefix() {
    let prev = toks("the quick brown fox");
    let cur = toks("the quick brown dog jumps");
    let (committed, tentative) = local_agreement_2(Some(prev.as_slice()), &cur);
    assert_eq!(committed, "the quick brown");
    assert_eq!(tentative, "dog jumps");
}

#[test]
fn divergent_first_token_commits_nothing() {
    let prev = toks("hello world");
    let cur = toks("greetings world");
    let (committed, tentative) = local_agreement_2(Some(prev.as_slice()), &cur);
    assert_eq!(committed, "");
    assert_eq!(tentative, "greetings world");
}

#[test]
fn current_extends_previous_commits_overlap_only() {
    let prev = toks("hello there");
    let cur = toks("hello there friend");
    let (committed, tentative) = local_agreement_2(Some(prev.as_slice()), &cur);
    assert_eq!(committed, "hello there");
    assert_eq!(tentative, "friend");
}

#[test]
fn current_shorter_than_previous_still_works() {
    let prev = toks("the quick brown fox jumps");
    let cur = toks("the quick");
    let (committed, tentative) = local_agreement_2(Some(prev.as_slice()), &cur);
    assert_eq!(committed, "the quick");
    assert_eq!(tentative, "");
}

#[test]
fn case_sensitive_matching() {
    let prev = toks("Hello world");
    let cur = toks("hello world");
    let (committed, tentative) = local_agreement_2(Some(prev.as_slice()), &cur);
    assert_eq!(committed, "");
    assert_eq!(tentative, "hello world");
}

#[test]
fn streaming_state_commits_after_second_pass() {
    let mut st = StreamingState::new(0);
    st.push_audio(20_000);
    let d = st.maybe_tick(1_000);
    assert!(d.dispatch);
    assert_eq!(d.drop_front, 0);
    let (c1, t1) = st.record_pass(toks("hello there"));
    assert_eq!(c1, "");
    assert_eq!(t1, "hello there");
    let (c2, t2) = st.record_pass(toks("hello there friend"));
    assert_eq!(c2, "hello there");
    assert_eq!(t2, "friend");
}

#[test]
fn streaming_state_waits_for_interval_and_audio() {
    let mut st = StreamingState::new(0);
    st.push_audio(8_000);
    assert!(!st.maybe_tick(1_000).dispatch);
    st.push_audio(8_000);
    assert!(!st.maybe_tick(500).dispatch);
    assert!(st.maybe_tick(900).dispatch);
}

#[test]
fn streaming_state_rolls_long_buffers_and_freezes_text() {
    let mut st = StreamingState::new(0);
    st.push_audio(20_000);
    st.record_pass(toks("alpha bravo"));
    st.record_pass(toks("alpha bravo charlie"));
    st.push_audio(320_000);
    let d = st.maybe_tick(5_000);
    assert_eq!(d.drop_front, 340_000 - 48_000);
    assert_eq!(st.frozen_text, "alpha bravo");
    let (c, _) = st.record_pass(toks("bravo delta"));
    assert_eq!(c, "alpha bravo");
    let (c2, t2) = st.record_pass(toks("bravo delta echo"));
    assert_eq!(c2, "alpha bravo delta");
    assert_eq!(t2, "echo");
}
