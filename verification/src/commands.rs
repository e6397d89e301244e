//! What the front end's commands answer: the results they return, the
//! errors they raise and the decisions between the calls they make (model
//! downloads, history pastes, the LLM connection test, the permission
//! panes). The calls themselves are the caller's.
use vstd::prelude::*;
use crate::error::BoothError;
use crate::learning::utf8_len;
use crate::paths::{app_dir_path, default_models_dir, joined, simple_base};
use crate::settings::{concat_str, current_whisper_model_file, model_for_spec, opt_view, whisper_model_for, RuntimeSettings, WhisperModel};
use crate::paths::whisper_file_spec;
use crate::text::{push_char, str_chars};

verus! {

/// A Whisper model download.
#[derive(Debug)]
pub struct WhisperDownloadResult {
    pub model: String,
    pub file: String,
    pub path: String,
    pub already_present: bool,
}

/// A history entry pasted into the focused app: its id and the pasted
/// text's length in bytes.
#[derive(Debug)]
pub struct HistoryPasteResult {
    pub id: i64,
    pub len: usize,
}

/// One dictation run end to end.
#[derive(Debug)]
pub struct DictateResult {
    pub raw: String,
    pub formatted: String,
    pub duration_ms: u64,
}

/// The LLM connection probe.
#[derive(Debug)]
pub struct LlmTestResult {
    pub ok: bool,
    pub latency_ms: u64,
    pub error: Option<String>,
}

/// The privacy panes of the macOS System Settings that dictation needs.
#[derive(Debug, Clone, Copy, PartialEq, Eq, Structural)]
pub enum MacPermissionPane {
    Microphone,
    Accessibility,
    InputMonitoring,
    ScreenRecording,
}

pub open spec fn pane_url_spec(pane: MacPermissionPane) -> Seq<char> {
    match pane {
        MacPermissionPane::Microphone => "x-apple.systempreferences:com.apple.preference.security?Privacy_Microphone"@,
        MacPermissionPane::Accessibility => "x-apple.systempreferences:com.apple.preference.security?Privacy_Accessibility"@,
        MacPermissionPane::InputMonitoring => "x-apple.systempreferences:com.apple.preference.security?Privacy_ListenEvent"@,
        MacPermissionPane::ScreenRecording => "x-apple.systempreferences:com.apple.preference.security?Privacy_ScreenCapture"@,
    }
}

/// The URL that opens a pane.
pub fn pane_url(pane: MacPermissionPane) -> (s: &'static str)
    ensures
        s@ == pane_url_spec(pane),
{
    match pane {
        MacPermissionPane::Microphone => "x-apple.systempreferences:com.apple.preference.security?Privacy_Microphone",
        MacPermissionPane::Accessibility => "x-apple.systempreferences:com.apple.preference.security?Privacy_Accessibility",
        MacPermissionPane::InputMonitoring => "x-apple.systempreferences:com.apple.preference.security?Privacy_ListenEvent",
        MacPermissionPane::ScreenRecording => "x-apple.systempreferences:com.apple.preference.security?Privacy_ScreenCapture",
    }
}

/// The pane to open on this platform: System Settings exists on macOS
/// only; elsewhere opening a pane does nothing.
pub fn settings_pane_url(pane: MacPermissionPane, platform: crate::ocr::Platform) -> (s: Option<&'static str>)
    ensures
        platform == crate::ocr::Platform::MacOs ==> (s matches Some(u) && u@ == pane_url_spec(pane)),
        platform != crate::ocr::Platform::MacOs ==> s is None,
{
    match platform {
        crate::ocr::Platform::MacOs => Some(pane_url(pane)),
        _ => None,
    }
}

// ---------------------------------------------------------------------
// Decimal numbers in messages

pub open spec fn digit_char(d: nat) -> char {
    ((48 + d) as u8) as char
}

/// The decimal digits of `n`.
pub open spec fn digits(n: nat) -> Seq<char>
    decreases n,
{
    if n < 10 {
        seq![digit_char(n)]
    } else {
        digits(n / 10).push(digit_char(n % 10))
    }
}

/// `n` in decimal, with a leading `-` when negative.
pub open spec fn decimal(n: int) -> Seq<char> {
    if n < 0 {
        seq!['-'] + digits((-n) as nat)
    } else {
        digits(n as nat)
    }
}

fn push_digits(out: &mut String, n: u64)
    ensures
        final(out)@ == old(out)@ + digits(n as nat),
    decreases n,
{
    if n >= 10 {
        push_digits(out, n / 10);
    }
    let d: u64 = n % 10;
    let c = ((48 + d) as u8) as char;
    push_char(out, c);
}

/// Appends `n` in decimal.
pub fn push_decimal(out: &mut String, n: i64)
    ensures
        final(out)@ == old(out)@ + decimal(n as int),
{
    if n < 0 {
        push_char(out, '-');
        let m: u64 = if n == i64::MIN {
            9223372036854775808u64
        } else {
            (-n) as u64
        };
        push_digits(out, m);
        assert(old(out)@.push('-') + digits(m as nat) == old(out)@ + (seq!['-'] + digits(m as nat)));
    } else {
        push_digits(out, n as u64);
    }
}

// ---------------------------------------------------------------------
// Whisper model downloads

/// Where a download of `model` goes: the model's table row and its path
/// in the models directory; an internal error for a model the table does
/// not know, or when the data directory is unknown.
pub fn download_target(model: &str, data_dir: Option<&str>) -> (r: Result<(WhisperModel, String), BoothError>)
    ensures
        model_for_spec(model@) is None ==> (r matches Err(BoothError::Internal(m)) && m@ == "unsupported Whisper model: "@ + model@),
        model_for_spec(model@) is Some && data_dir is None ==> (r matches Err(BoothError::Internal(m)) && m@ == "could not resolve user data directory"@),
        match (model_for_spec(model@), data_dir) {
            (Some(row), Some(d)) => r matches Ok((info, dest)) && info@ == row && (simple_base(d@) ==> exists|models: Seq<char>|
                #[trigger] app_dir_path(d@, "models"@, models) && joined(models, row.file, dest@)),
            _ => true,
        },
{
    let info = match whisper_model_for(model) {
        Some(m) => m,
        None => {
            let msg = concat_str("unsupported Whisper model: ", model);
            return Err(BoothError::internal(msg.as_str()));
        },
    };
    let dir = match default_models_dir(data_dir) {
        Some(d) => d,
        None => return Err(BoothError::internal("could not resolve user data directory")),
    };
    proof {
        crate::settings::lemma_model_for_in_table(model@);
        let i = choose|i: int| 0 <= i < crate::settings::model_table().len() && #[trigger] crate::settings::model_table()[i] == info@;
        crate::settings::lemma_table_files_plain(i);
        assert(info.file@.contains(info.file@[0]));
    }
    let dest = crate::paths::join_path(dir.as_str(), info.file);
    Ok((info, dest))
}

/// The download's result: the table row's value and file, and the path.
pub fn download_result(info: &WhisperModel, dest: String, already_present: bool) -> (r: WhisperDownloadResult)
    ensures
        r.model@ == info.value@,
        r.file@ == info.file@,
        r.path == dest,
        r.already_present == already_present,
{
    WhisperDownloadResult {
        model: info.value.to_string(),
        file: info.file.to_string(),
        path: dest,
        already_present,
    }
}

/// Where a model file is fetched from when no download script is at hand.
pub fn download_url(file: &str) -> (s: String)
    ensures
        s@ == "https://huggingface.co/ggerganov/whisper.cpp/resolve/main/"@ + file@,
{
    concat_str("https://huggingface.co/ggerganov/whisper.cpp/resolve/main/", file)
}

/// A finished download counts only when the downloader succeeded and the
/// file is there; otherwise it is an internal error naming the file.
pub fn download_outcome(
    info: &WhisperModel,
    dest: String,
    downloader_succeeded: bool,
    file_exists: bool,
) -> (r: Result<WhisperDownloadResult, BoothError>)
    ensures
        downloader_succeeded && file_exists ==> (r matches Ok(res) && res.model@ == info.value@
            && res.file@ == info.file@ && res.path == dest && !res.already_present),
        !(downloader_succeeded && file_exists) ==> (r matches Err(BoothError::Internal(m)) && m@
            == "model download failed for "@ + info.file@),
{
    if !downloader_succeeded || !file_exists {
        let msg = concat_str("model download failed for ", info.file);
        return Err(BoothError::internal(msg.as_str()));
    }
    Ok(download_result(info, dest, false))
}

// ---------------------------------------------------------------------
// History paste

/// The text to paste for a history entry, or an internal error when the
/// entry is gone.
pub fn paste_text(id: i64, formatted: Option<String>) -> (r: Result<String, BoothError>)
    ensures
        formatted matches Some(t) ==> r == Ok::<String, BoothError>(t),
        formatted is None ==> (r matches Err(BoothError::Internal(m)) && m@ == "history id "@ + decimal(
            id as int,
        ) + " not found"@),
{
    match formatted {
        Some(t) => Ok(t),
        None => {
            let mut m = "history id ".to_string();
            push_decimal(&mut m, id);
            let tail = str_chars(" not found");
            crate::text::push_chars(&mut m, &tail);
            Err(BoothError::internal(m.as_str()))
        },
    }
}

/// What a paste reports: the entry's id and the pasted bytes.
pub fn paste_result(id: i64, text: &str) -> (r: HistoryPasteResult)
    requires
        utf8_len(text@) <= usize::MAX,
    ensures
        r.id == id,
        r.len == utf8_len(text@),
{
    proof {
        crate::learning::lemma_utf8_len_is_encoding_len(text@);
    }
    HistoryPasteResult { id, len: text.len() }
}

// ---------------------------------------------------------------------
// LLM connection test

/// Whether the endpoint answered, with the error's message when it did
/// not.
pub fn llm_test_result(latency_ms: u64, result: Result<(), BoothError>) -> (r: LlmTestResult)
    ensures
        r.latency_ms == latency_ms,
        r.ok == (result is Ok),
        match result {
            Ok(_) => r.error is None,
            Err(e) => r.error matches Some(m) && m@ == e.message_spec(),
        },
{
    match result {
        Ok(()) => LlmTestResult { ok: true, latency_ms, error: None },
        Err(e) => LlmTestResult { ok: false, latency_ms, error: Some(e.message()) },
    }
}

/// The probe's task itself failed (the detail is the task error's text).
pub fn llm_test_task_failed(detail: &str) -> (r: LlmTestResult)
    ensures
        !r.ok,
        r.latency_ms == 0,
        r.error matches Some(m) && m@ == "test task failed: "@ + detail@,
{
    LlmTestResult { ok: false, latency_ms: 0, error: Some(concat_str("test task failed: ", detail)) }
}

// ---------------------------------------------------------------------
// Model name chip

/// Index of the last `.` in `s`, or -1.
pub open spec fn last_dot(s: Seq<char>) -> int
    decreases s.len(),
{
    if s.len() == 0 {
        -1
    } else if s.last() == '.' {
        s.len() - 1
    } else {
        last_dot(s.drop_last())
    }
}

/// A file name with no directory part and no drive: no `/`, `\\` or `:`.
pub open spec fn bare_file_name(name: Seq<char>) -> bool {
    !name.contains('/') && !name.contains('\\') && !name.contains(':')
}

/// What `Path::file_stem` gives for a bare file name: nothing for an empty
/// name, `.` or `..`; otherwise the name up to its last dot, or the whole
/// name when it has no dot or its last dot is its first character.
pub open spec fn file_stem_spec(name: Seq<char>) -> Option<Seq<char>> {
    if name.len() == 0 || name == "."@ || name == ".."@ {
        None
    } else if last_dot(name) <= 0 {
        Some(name)
    } else {
        Some(name.take(last_dot(name)))
    }
}

/// `std::path::Path::file_stem`, as a string (`to_string_lossy` loses
/// nothing on a stem cut from a `&str`). For a bare file name the result is [`file_stem_spec`];
/// for names with a directory or a drive, whose parsing depends on the
/// platform, nothing is claimed.
#[verifier::external_body]
fn file_stem(name: &str) -> (r: Option<String>)
    ensures
        bare_file_name(name@) ==> opt_view(r) == file_stem_spec(name@),
{
    match std::path::Path::new(name).file_stem() {
        Some(stem) => Some(stem.to_string_lossy().into_owned()),
        None => None,
    }
}

/// A file's stem, with `whisper` standing in when it has none.
pub open spec fn stem_or_default(name: Seq<char>) -> Seq<char> {
    match file_stem_spec(name) {
        Some(stem) => stem,
        None => "whisper"@,
    }
}

fn file_stem_or_default(name: &str) -> (r: String)
    ensures
        bare_file_name(name@) ==> r@ == stem_or_default(name@),
{
    match file_stem(name) {
        Some(stem) => stem,
        None => "whisper".to_string(),
    }
}

/// Every file the model chip can name is a bare file name.
proof fn lemma_model_files_are_bare(rt: &RuntimeSettings)
    ensures
        bare_file_name(whisper_file_spec(rt)),
{
    reveal_strlit("ggml-tiny.en.bin");
    reveal_strlit("ggml-base.en.bin");
    reveal_strlit("ggml-small.en.bin");
    reveal_strlit("ggml-medium.en.bin");
    reveal_strlit("ggml-large-v3-turbo.bin");
    reveal_strlit("parakeet-tdt-0.6b-v3.onnx");
    crate::settings::lemma_model_for_in_table(rt.settings.whisper.model@);
    let table = crate::settings::model_table();
    assert forall|i: int| 0 <= i < table.len() implies #[trigger] bare_file_name(table[i].file) by {
        assert(0 <= i < 6);
    }
    assert(bare_file_name("ggml-tiny.en.bin"@));
}

/// The model chip: the configured Whisper file's stem (`ggml-small.en`).
pub fn whisper_model_name(rt: &RuntimeSettings) -> (s: String)
    ensures
        s@ == stem_or_default(whisper_file_spec(rt)),
{
    let file = current_whisper_model_file(rt);
    proof {
        lemma_model_files_are_bare(rt);
    }
    file_stem_or_default(file.as_str())
}

} // verus!
