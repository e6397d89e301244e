use boothrflow::history::{
    candidate_count, entry_from_row, lexical_query, parse_style, record_request, sanitize_fts_query,
    source_of, source_str, style_str, SearchSource,
};
use boothrflow::context::AppContext;
use boothrflow::settings::Style;

#[test]
fn styles_round_trip_through_storage() {
    for s in [
        Style::Raw,
        Style::Formal,
        Style::Casual,
        Style::Excited,
        Style::VeryCasual,
        Style::CaptainsLog,
    ] {
        assert_eq!(parse_style(style_str(&s)), s);
    }
}

#[test]
fn older_and_unknown_style_names() {
    assert_eq!(parse_style("moderate"), Style::Formal);
    assert_eq!(parse_style("assertive"), Style::Excited);
    assert_eq!(parse_style("light"), Style::Casual);
    assert_eq!(parse_style("something-else"), Style::Casual);
    assert_eq!(style_str(&Style::CaptainsLog), "captains-log");
}

#[test]
fn fts_query_is_one_phrase() {
    assert_eq!(sanitize_fts_query("hello world"), "\"hello world\"");
    assert_eq!(sanitize_fts_query("say \"hi\" OR x"), "\"say \"\"hi\"\" OR x\"");
    assert_eq!(lexical_query("   "), None);
    assert_eq!(lexical_query("a:b"), Some("\"a:b\"".to_string()));
}

#[test]
fn sources_and_candidates() {
    assert_eq!(source_str(SearchSource::Both), "both");
    assert_eq!(source_str(source_of(true, false)), "lexical");
    assert_eq!(source_str(source_of(false, true)), "semantic");
    assert_eq!(source_of(true, true), SearchSource::Both);
    assert_eq!(candidate_count(2), 20);
    assert_eq!(candidate_count(10), 40);
}

#[test]
fn record_and_row_mapping() {
    let ctx = AppContext {
        app_exe: "slack.exe".into(),
        app_name: "slack".into(),
        window_title: Some("general".into()),
        control_role: None,
    };
    let r = record_request("raw", "Formatted.", Style::Formal, Some(&ctx), 1200, 300);
    assert_eq!(r.app_exe.as_deref(), Some("slack.exe"));
    assert_eq!(r.window_title.as_deref(), Some("general"));
    assert_eq!(r.duration_ms, 1200);
    let e = entry_from_row(
        7,
        "2026-01-01T00:00:00Z".into(),
        "raw".into(),
        "Formatted.".into(),
        "formal",
        None,
        None,
        1200,
        -1,
        1,
    );
    assert_eq!(e.style, Style::Formal);
    assert_eq!(e.duration_ms, 1200);
    assert_eq!(e.llm_ms, u64::MAX);
    assert!(e.has_embedding);
}
