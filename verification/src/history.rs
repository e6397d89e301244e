//! Dictation history: the records kept per utterance, how a style is
//! stored as text, and how a free-form search becomes a full-text query.
//! The database itself is driven by the caller.
use vstd::prelude::*;
use crate::context::AppContext;
use crate::settings::{eq_lit, Style};
use crate::text::{push_char, str_chars, trim_chars, trim_spec};

verus! {

/// Which side of the hybrid search produced a hit.
#[derive(Debug, Clone, Copy, PartialEq, Eq, Structural)]
pub enum SearchSource {
    Lexical,
    Semantic,
    Both,
}

/// One persisted dictation.
#[derive(Debug)]
pub struct HistoryEntry {
    pub id: i64,
    pub captured_at: String,
    pub raw: String,
    pub formatted: String,
    pub style: Style,
    pub app_exe: Option<String>,
    pub window_title: Option<String>,
    pub duration_ms: u64,
    pub llm_ms: u64,
    pub has_embedding: bool,
}

/// What a finished dictation hands to the history.
#[derive(Debug)]
pub struct RecordRequest {
    pub raw: String,
    pub formatted: String,
    pub style: Style,
    pub app_exe: Option<String>,
    pub window_title: Option<String>,
    pub duration_ms: u64,
    pub llm_ms: u64,
}

/// Counts shown on the history screen.
#[derive(Debug)]
pub struct HistoryStats {
    pub total_entries: i64,
    pub embedded_entries: i64,
    pub db_path: String,
    pub embed_endpoint: Option<String>,
    pub embed_model: Option<String>,
}

/// The stored name of each style.
pub open spec fn style_name(s: Style) -> Seq<char> {
    match s {
        Style::Raw => "raw"@,
        Style::Formal => "formal"@,
        Style::Casual => "casual"@,
        Style::Excited => "excited"@,
        Style::VeryCasual => "very-casual"@,
        Style::CaptainsLog => "captains-log"@,
    }
}

/// Reading a stored style back: each stored name gives its style, the
/// older names `moderate`, `light` and `assertive` map to `Formal`,
/// `Casual` and `Excited`, and anything else reads as the default style.
pub open spec fn parse_style_spec(s: Seq<char>) -> Style {
    if s == "raw"@ {
        Style::Raw
    } else if s == "formal"@ || s == "moderate"@ {
        Style::Formal
    } else if s == "excited"@ || s == "assertive"@ {
        Style::Excited
    } else if s == "very-casual"@ {
        Style::VeryCasual
    } else if s == "captains-log"@ {
        Style::CaptainsLog
    } else {
        Style::Casual
    }
}

pub fn style_str(s: &Style) -> (r: &'static str)
    ensures
        r@ == style_name(*s),
{
    match s {
        Style::Raw => "raw",
        Style::Formal => "formal",
        Style::Casual => "casual",
        Style::Excited => "excited",
        Style::VeryCasual => "very-casual",
        Style::CaptainsLog => "captains-log",
    }
}

pub fn parse_style(s: &str) -> (r: Style)
    ensures
        r == parse_style_spec(s@),
{
    let v = str_chars(s);
    if eq_lit(&v, "raw") {
        Style::Raw
    } else if eq_lit(&v, "formal") || eq_lit(&v, "moderate") {
        Style::Formal
    } else if eq_lit(&v, "excited") || eq_lit(&v, "assertive") {
        Style::Excited
    } else if eq_lit(&v, "very-casual") {
        Style::VeryCasual
    } else if eq_lit(&v, "captains-log") {
        Style::CaptainsLog
    } else {
        Style::Casual
    }
}

/// A style survives being stored and read back.
pub proof fn style_roundtrip(s: Style)
    ensures
        parse_style_spec(style_name(s)) == s,
{
    reveal_strlit("raw");
    reveal_strlit("formal");
    reveal_strlit("moderate");
    reveal_strlit("casual");
    reveal_strlit("excited");
    reveal_strlit("assertive");
    reveal_strlit("very-casual");
    reveal_strlit("captains-log");
    assert("raw"@.len() == 3);
    assert("formal"@.len() == 6);
    assert("moderate"@.len() == 8);
    assert("casual"@.len() == 6);
    assert("excited"@.len() == 7);
    assert("assertive"@.len() == 9);
    assert("very-casual"@.len() == 11);
    assert("captains-log"@.len() == 12);
    assert("casual"@[0] != "formal"@[0]);
}

pub open spec fn source_name(s: SearchSource) -> Seq<char> {
    match s {
        SearchSource::Lexical => "lexical"@,
        SearchSource::Semantic => "semantic"@,
        SearchSource::Both => "both"@,
    }
}

pub fn source_str(s: SearchSource) -> (r: &'static str)
    ensures
        r@ == source_name(s),
{
    match s {
        SearchSource::Lexical => "lexical",
        SearchSource::Semantic => "semantic",
        SearchSource::Both => "both",
    }
}

/// Where a merged hit came from, given whether the lexical and the
/// semantic ranking listed it (a hit listed by neither counts as lexical).
pub fn source_of(in_lexical: bool, in_semantic: bool) -> (r: SearchSource)
    ensures
        r == (if in_lexical && in_semantic {
            SearchSource::Both
        } else if !in_lexical && in_semantic {
            SearchSource::Semantic
        } else {
            SearchSource::Lexical
        }),
{
    if in_lexical && in_semantic {
        SearchSource::Both
    } else if in_semantic {
        SearchSource::Semantic
    } else {
        SearchSource::Lexical
    }
}

/// `"` doubled.
pub open spec fn double_quotes(s: Seq<char>) -> Seq<char>
    decreases s.len(),
{
    if s.len() == 0 {
        s
    } else if s.last() == '"' {
        double_quotes(s.drop_last()) + seq!['"', '"']
    } else {
        double_quotes(s.drop_last()).push(s.last())
    }
}

/// The query as one quoted phrase with embedded quotes doubled, so that
/// the full-text engine sees no operators.
pub open spec fn fts_phrase(q: Seq<char>) -> Seq<char> {
    seq!['"'] + double_quotes(q) + seq!['"']
}

pub fn sanitize_fts_query(q: &str) -> (r: String)
    ensures
        r@ == fts_phrase(q@),
{
    let v = str_chars(q);
    let mut out = String::new();
    push_char(&mut out, '"');
    for i in 0..v.len()
        invariant
            out@ == seq!['"'] + double_quotes(v@.take(i as int)),
    {
        assert(v@.take(i + 1).drop_last() == v@.take(i as int));
        if v[i] == '"' {
            push_char(&mut out, '"');
            push_char(&mut out, '"');
        } else {
            push_char(&mut out, v[i]);
        }
    }
    assert(v@.take(v.len() as int) == v@);
    push_char(&mut out, '"');
    out
}

/// Reads a doubled quote back as one quote (scanning from the end).
pub open spec fn undouble_quotes(s: Seq<char>) -> Seq<char>
    decreases s.len(),
{
    if s.len() == 0 {
        s
    } else if s.len() >= 2 && s.last() == '"' && s[s.len() - 2] == '"' {
        undouble_quotes(s.subrange(0, s.len() - 2)).push('"')
    } else {
        undouble_quotes(s.drop_last()).push(s.last())
    }
}

/// The phrase's body, read with doubled quotes as single quotes, is the
/// query itself: escaping loses nothing.
pub proof fn fts_escape_roundtrip(q: Seq<char>)
    ensures
        undouble_quotes(double_quotes(q)) == q,
    decreases q.len(),
{
    if q.len() > 0 {
        fts_escape_roundtrip(q.drop_last());
        let d = double_quotes(q.drop_last());
        if q.last() == '"' {
            let e = d + seq!['"', '"'];
            assert(e.subrange(0, e.len() - 2) == d);
        } else {
            assert(d.push(q.last()).drop_last() == d);
        }
        assert(q.drop_last().push(q.last()) == q);
    }
}

/// The full-text query for a search, or `None` for a blank search (no
/// lexical candidates at all).
pub fn lexical_query(query: &str) -> (r: Option<String>)
    ensures
        trim_spec(query@).len() == 0 ==> r is None,
        trim_spec(query@).len() != 0 ==> (r matches Some(s) && s@ == fts_phrase(query@)),
{
    let v = str_chars(query);
    let t = trim_chars(&v);
    if t.len() == 0 {
        None
    } else {
        Some(sanitize_fts_query(query))
    }
}

/// How many candidates each ranking contributes to the merge: four per
/// requested result, and at least twenty.
pub fn candidate_count(limit: usize) -> (n: usize)
    requires
        limit * 4 <= usize::MAX,
    ensures
        n == (if limit * 4 >= 20 { limit * 4 } else { 20 }),
{
    let l = limit * 4;
    if l >= 20 {
        l
    } else {
        20
    }
}

/// The record for a finished dictation.
pub fn record_request(
    raw: &str,
    formatted: &str,
    style: Style,
    app_context: Option<&AppContext>,
    duration_ms: u64,
    llm_ms: u64,
) -> (r: RecordRequest)
    ensures
        r.raw@ == raw@,
        r.formatted@ == formatted@,
        r.style == style,
        r.duration_ms == duration_ms,
        r.llm_ms == llm_ms,
        match app_context {
            Some(c) => (r.app_exe matches Some(e) && e@ == c.app_exe@) && r.window_title
                == c.window_title,
            None => r.app_exe is None && r.window_title is None,
        },
{
    let (app_exe, window_title) = match app_context {
        Some(c) => (Some(c.app_exe.clone()), c.window_title.clone()),
        None => (None, None),
    };
    RecordRequest {
        raw: raw.to_string(),
        formatted: formatted.to_string(),
        style,
        app_exe,
        window_title,
        duration_ms,
        llm_ms,
    }
}

/// A stored row read back into an entry: the style from its stored name,
/// the millisecond counts reinterpreted as unsigned, and the embedding
/// flag from the database's `0`/`1`.
pub fn entry_from_row(
    id: i64,
    captured_at: String,
    raw: String,
    formatted: String,
    style_text: &str,
    app_exe: Option<String>,
    window_title: Option<String>,
    duration_ms: i64,
    llm_ms: i64,
    embedded: i64,
) -> (e: HistoryEntry)
    ensures
        e.id == id,
        e.captured_at == captured_at,
        e.raw == raw,
        e.formatted == formatted,
        e.style == parse_style_spec(style_text@),
        e.app_exe == app_exe,
        e.window_title == window_title,
        e.duration_ms == duration_ms as u64,
        e.llm_ms == llm_ms as u64,
        e.has_embedding == (embedded != 0),
{
    HistoryEntry {
        id,
        captured_at,
        raw,
        formatted,
        style: parse_style(style_text),
        app_exe,
        window_title,
        duration_ms: duration_ms as u64,
        llm_ms: llm_ms as u64,
        has_embedding: embedded != 0,
    }
}

/// The history screen's counts, the database's location and, when
/// embeddings are on, the embedding endpoint and model.
pub fn history_stats(
    total_entries: i64,
    embedded_entries: i64,
    db_path: String,
    embedder: Option<(String, String)>,
) -> (s: HistoryStats)
    ensures
        s.total_entries == total_entries,
        s.embedded_entries == embedded_entries,
        s.db_path == db_path,
        match embedder {
            Some(e) => s.embed_endpoint == Some(e.0) && s.embed_model == Some(e.1),
            None => s.embed_endpoint is None && s.embed_model is None,
        },
{
    let (embed_endpoint, embed_model) = match embedder {
        Some((e, m)) => (Some(e), Some(m)),
        None => (None, None),
    };
    HistoryStats { total_entries, embedded_entries, db_path, embed_endpoint, embed_model }
}

} // verus!
