//! The single-utterance path: capture, transcribe, clean up, paste. The
//! engines are the caller's; this module holds the outcome, the paste
//! target's trait and the decisions between the steps.
use vstd::prelude::*;
use crate::context::AppContext;
use crate::error::BoothError;
use crate::llm::{should_skip_llm, should_skip_spec, CleanupOutput, CleanupRequest};
use crate::settings::Style;
use crate::text::{chars_to_string, str_chars, trim_end_matches_chars, trim_end_matches_spec};

verus! {

/// Puts text into the focused control.
pub trait Injector {
    fn inject(&self, text: &str) -> Result<(), BoothError>;

    fn name(&self) -> &str;
}

/// One dictation's outcome, for display and history.
#[derive(Debug)]
pub struct DictateOutcome {
    pub raw: String,
    pub formatted: String,
    pub duration_ms: u64,
    pub app_exe: Option<String>,
    pub skipped_llm: bool,
}

/// The context handed to the cleanup pass for a detected executable: its
/// display name is the executable without trailing `.exe`.
pub fn context_for_exe(app_exe: Option<&str>) -> (r: Option<AppContext>)
    ensures
        app_exe is None ==> r is None,
        app_exe matches Some(e) ==> (r matches Some(c) && c.app_exe@ == e@ && c.app_name@
            == trim_end_matches_spec(e@, ".exe"@) && c.window_title is None && c.control_role is None),
{
    match app_exe {
        Some(e) => {
            let v = str_chars(e);
            let suffix = str_chars(".exe");
            let name = trim_end_matches_chars(&v, &suffix);
            Some(AppContext {
                app_exe: e.to_string(),
                app_name: chars_to_string(&name),
                window_title: None,
                control_role: None,
            })
        },
        None => None,
    }
}

/// The outcome of a run: a skipped cleanup pastes the raw transcript.
pub fn dictate_outcome(
    raw: String,
    cleaned: Option<String>,
    duration_ms: u64,
    app_exe: Option<String>,
) -> (o: DictateOutcome)
    ensures
        o.raw == raw,
        o.skipped_llm == (cleaned is None),
        match cleaned {
            Some(c) => o.formatted == c,
            None => o.formatted@ == raw@,
        },
        o.duration_ms == duration_ms,
        o.app_exe == app_exe,
{
    let skipped = cleaned.is_none();
    let formatted = match cleaned {
        Some(c) => c,
        None => raw.clone(),
    };
    DictateOutcome { raw, formatted, duration_ms, app_exe, skipped_llm: skipped }
}

/// The paste chord's outcome: the modifier is always released, and a
/// failed click of `V` is reported before a failed release.
pub fn paste_keystroke_result(click: Result<(), String>, release: Result<(), String>) -> (r: Result<(), BoothError>)
    ensures
        match (click, release) {
            (Err(c), _) => r matches Err(BoothError::Injection(m)) && m@ == "click v: "@ + c@,
            (Ok(_), Err(rl)) => r matches Err(BoothError::Injection(m)) && m@ == "release modifier: "@ + rl@,
            (Ok(_), Ok(_)) => r is Ok,
        },
{
    match click {
        Err(c) => Err(BoothError::Injection(crate::settings::concat_str("click v: ", c.as_str()))),
        Ok(()) => match release {
            Err(rl) => Err(BoothError::Injection(crate::settings::concat_str("release modifier: ", rl.as_str()))),
            Ok(()) => Ok(()),
        },
    }
}


/// The cleanup call of a single-utterance run: the transcript, the style
/// and the detected app's context, with no window text and no vocabulary.
pub fn utterance_cleanup_request<'a>(raw: &'a str, style: Style, app_exe: Option<&str>) -> (r: CleanupRequest<'a>)
    ensures
        r.raw_text == raw,
        utterance_request_for(r, raw, style, app_exe),
{
    CleanupRequest {
        raw_text: raw,
        style,
        app_context: context_for_exe(app_exe),
        window_ocr: None,
        preferred_transcriptions: Vec::new(),
        commonly_misheard: Vec::new(),
    }
}

/// `q` is the cleanup call of a single-utterance run on `raw`: the
/// transcript, the style and the detected app's context, with no window
/// text and no vocabulary.
pub open spec fn utterance_request_for(q: CleanupRequest, raw: &str, style: Style, app_exe: Option<&str>) -> bool {
    &&& q.raw_text@ == raw@
    &&& q.style == style
    &&& (app_exe is None ==> q.app_context is None)
    &&& (app_exe matches Some(e) ==> (q.app_context matches Some(c) && c.app_exe@ == e@ && c.app_name@
        == trim_end_matches_spec(e@, ".exe"@) && c.window_title is None && c.control_role is None))
    &&& q.window_ocr is None
    &&& q.preferred_transcriptions@.len() == 0
    &&& q.commonly_misheard@.len() == 0
}

/// What a run answers once the paste of `text` came back with `pasted`:
/// the cleaned text (`None` after a skipped cleanup) on success, the
/// paste's error otherwise.
pub open spec fn after_paste(pasted: Result<(), BoothError>, cleaned: Option<Seq<char>>, r: Result<Option<String>, BoothError>) -> bool {
    match pasted {
        Ok(_) => match cleaned {
            None => r matches Ok(c) && c is None,
            Some(t) => r matches Ok(c) && (c matches Some(x) && x@ == t),
        },
        Err(e) => r == Err::<Option<String>, BoothError>(e),
    }
}

/// The steps of a single-utterance run after transcription. When
/// [`should_skip_llm`] says so, the raw transcript is pasted as it is.
/// Otherwise the transcript goes to `cleanup` with the style and the
/// detected app's context; a cleanup error ends the run with that error,
/// and the cleaned text is pasted. A paste error ends the run with that
/// error; on success the run gives the cleaned text, or `None` when the raw
/// transcript was pasted, for [`dictate_outcome`]. `cleanup` and `inject`
/// are the backend's and the injector's calls.
pub fn clean_and_paste<'a, C, J>(
    cleanup: C,
    inject: J,
    raw: &'a str,
    app_exe: Option<&str>,
    style: Style,
    llm_enabled: bool,
) -> (r: Result<Option<String>, BoothError>) where
    C: FnOnce(CleanupRequest<'a>) -> Result<CleanupOutput, BoothError>,
    J: FnOnce(String) -> Result<(), BoothError>,

    requires
        forall|q: CleanupRequest<'a>| #[trigger] cleanup.requires((q,)),
        forall|t: String| #[trigger] inject.requires((t,)),
    ensures
        should_skip_spec(raw@, llm_enabled) ==> exists|t: String, p: Result<(), BoothError>|
            t@ == raw@ && #[trigger] inject.ensures((t,), p) && after_paste(p, None, r),
        !should_skip_spec(raw@, llm_enabled) ==> exists|q: CleanupRequest<'a>, o: Result<CleanupOutput, BoothError>|
            #[trigger] cleanup.ensures((q,), o) && utterance_request_for(q, raw, style, app_exe) && match o {
                Err(e) => r == Err::<Option<String>, BoothError>(e),
                Ok(out) => exists|t: String, p: Result<(), BoothError>|
                    t@ == out.text@ && #[trigger] inject.ensures((t,), p) && after_paste(p, Some(out.text@), r),
            },
{
    let skipped = should_skip_llm(raw, llm_enabled);
    if skipped {
        let t = raw.to_string();
        let ghost tg = t;
        let p = inject(t);
        assert(inject.ensures((tg,), p));
        return match p {
            Ok(()) => Ok(None),
            Err(e) => Err(e),
        };
    }
    let q = utterance_cleanup_request(raw, style, app_exe);
    let ghost qg = q;
    let o = cleanup(q);
    assert(cleanup.ensures((qg,), o));
    let out = match o {
        Ok(out) => out,
        Err(e) => return Err(e),
    };
    let text = out.text;
    let t = text.clone();
    let ghost tg = t;
    let p = inject(t);
    assert(inject.ensures((tg,), p));
    match p {
        Ok(()) => Ok(Some(text)),
        Err(e) => Err(e),
    }
}

} // verus!
