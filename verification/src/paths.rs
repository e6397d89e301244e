//! Where the app keeps its files: the settings document, downloaded
//! models and benchmark captures, all under the user's data directory
//! (which the caller resolves), and the errors for missing model files.
//! Paths are held as strings.
use vstd::prelude::*;
use crate::error::BoothError;
use crate::settings::{concat_str, current_whisper_model_file, model_for_spec, RuntimeSettings};
use crate::text::{chars_to_string, ends_with_chars, ends_with_spec, push_chars, str_chars};

verus! {

/// A leaf that `Path::join` appends rather than substitutes: non-empty,
/// not starting with a separator and holding no drive colon.
pub open spec fn relative_leaf(leaf: Seq<char>) -> bool {
    &&& leaf.len() > 0
    &&& leaf[0] != '/'
    &&& leaf[0] != '\\'
    &&& !leaf.contains(':')
}

/// A base that `Path::join` extends in place: it does not start with a
/// backslash (so it carries no verbatim or UNC prefix on Windows) and it is
/// not a bare drive such as `C:`.
pub open spec fn simple_base(base: Seq<char>) -> bool {
    &&& (base.len() == 0 || base[0] != '\\')
    &&& !(base.len() == 2 && base[1] == ':')
}

/// Whether `c` separates path components: `/` everywhere, and `\` too on
/// Windows.
pub open spec fn is_separator(c: char, windows: bool) -> bool {
    c == '/' || (windows && c == '\\')
}

/// `base` joined with a relative `leaf` under one platform's rules: the
/// platform's main separator (`\` on Windows, `/` elsewhere) goes between
/// them when `base` is non-empty and does not already end in a separator.
pub open spec fn join_spec(base: Seq<char>, leaf: Seq<char>, windows: bool) -> Seq<char> {
    let sep = if windows { '\\' } else { '/' };
    if base.len() > 0 && !is_separator(base.last(), windows) {
        base.push(sep) + leaf
    } else {
        base + leaf
    }
}

/// `r` is `base` joined with `leaf` under the rules of Windows or of the
/// other platforms (the one the library runs on).
pub open spec fn joined(base: Seq<char>, leaf: Seq<char>, r: Seq<char>) -> bool {
    r == join_spec(base, leaf, false) || r == join_spec(base, leaf, true)
}

/// `std::path::Path::join` (through `PathBuf::push`), then
/// `to_string_lossy`, which loses nothing on a path made from `&str`s. For a
/// simple base and a relative leaf the result is the base, the platform's
/// main separator where the base does not already end in a separator, and
/// the leaf. Which platform's rules apply is the machine's: the contract
/// allows either. For other bases (verbatim `\\?\` prefixes, whose
/// components std rebuilds, and bare drives) and other leaves (absolute, or
/// with a drive, which replace the base) nothing is claimed.
#[verifier::external_body]
pub(crate) fn join_path(base: &str, leaf: &str) -> (r: String)
    ensures
        simple_base(base@) && relative_leaf(leaf@) ==> joined(base@, leaf@, r@),
{
    std::path::Path::new(base).join(leaf).to_string_lossy().into_owned()
}

/// Joining a relative leaf onto a simple base gives a simple base again.
pub proof fn lemma_join_keeps_simple(base: Seq<char>, leaf: Seq<char>, windows: bool)
    requires
        simple_base(base),
        relative_leaf(leaf),
    ensures
        simple_base(join_spec(base, leaf, windows)),
        join_spec(base, leaf, windows).len() >= leaf.len(),
{
    let r = join_spec(base, leaf, windows);
    if base.len() == 0 {
        assert(r == leaf);
        if leaf.len() == 2 {
            assert(leaf.contains(leaf[1]));
        }
    } else {
        assert(r[0] == base[0]);
        if r.len() == 2 {
            if base.len() > 0 && !is_separator(base.last(), windows) {
                assert(r[1] == (if windows { '\\' } else { '/' }));
            } else {
                assert(r[1] == leaf[0]);
                assert(leaf.contains(leaf[0]));
            }
        }
    }
}

/// `<data>/boothrflow/<leaf>`, each join under either platform's rules.
pub open spec fn app_dir_path(data_dir: Seq<char>, leaf: Seq<char>, r: Seq<char>) -> bool {
    ||| joined(join_spec(data_dir, "boothrflow"@, false), leaf, r)
    ||| joined(join_spec(data_dir, "boothrflow"@, true), leaf, r)
}

fn app_subdir(data_dir: &str, leaf: &str) -> (r: String)
    requires
        relative_leaf(leaf@),
    ensures
        simple_base(data_dir@) ==> app_dir_path(data_dir@, leaf@, r@) && simple_base(r@),
{
    proof {
        reveal_strlit("boothrflow");
        assert("boothrflow"@.len() == 10);
        assert(relative_leaf("boothrflow"@));
    }
    let mid = join_path(data_dir, "boothrflow");
    let r = join_path(mid.as_str(), leaf);
    proof {
        if simple_base(data_dir@) {
            lemma_join_keeps_simple(data_dir@, "boothrflow"@, false);
            lemma_join_keeps_simple(data_dir@, "boothrflow"@, true);
            lemma_join_keeps_simple(mid@, leaf@, false);
            lemma_join_keeps_simple(mid@, leaf@, true);
        }
    }
    r
}

/// Where downloaded models live, when the data directory is known.
pub fn default_models_dir(data_dir: Option<&str>) -> (r: Option<String>)
    ensures
        data_dir is None ==> r is None,
        data_dir matches Some(d) ==> (r matches Some(p) && (simple_base(d@) ==> app_dir_path(d@, "models"@, p@)
            && simple_base(p@))),
{
    proof {
        reveal_strlit("models");
        assert("models"@.len() == 6);
        assert(relative_leaf("models"@));
    }
    match data_dir {
        Some(d) => Some(app_subdir(d, "models")),
        None => None,
    }
}

/// The file of the configured Whisper model (the default tiny English
/// model when the setting names no known model).
pub open spec fn whisper_file_spec(rt: &RuntimeSettings) -> Seq<char> {
    match model_for_spec(rt.settings.whisper.model@) {
        Some(m) => m.file,
        None => "ggml-tiny.en.bin"@,
    }
}

/// The configured Whisper file is a plain name: non-empty, with no `/`,
/// `\\` or `:`.
pub proof fn lemma_whisper_file_plain(rt: &RuntimeSettings)
    ensures
        whisper_file_spec(rt).len() > 0,
        !whisper_file_spec(rt).contains('/'),
        !whisper_file_spec(rt).contains('\\'),
        !whisper_file_spec(rt).contains(':'),
{
    crate::settings::lemma_model_for_in_table(rt.settings.whisper.model@);
    match model_for_spec(rt.settings.whisper.model@) {
        Some(m) => {
            let i = choose|i: int| 0 <= i < crate::settings::model_table().len() && #[trigger] crate::settings::model_table()[i] == m;
            crate::settings::lemma_table_files_plain(i);
        },
        None => {
            reveal_strlit("ggml-tiny.en.bin");
        },
    }
}

/// The configured Whisper model's path under the models directory.
pub fn default_model_path(rt: &RuntimeSettings, data_dir: Option<&str>) -> (r: Option<String>)
    ensures
        data_dir is None ==> r is None,
        data_dir matches Some(d) ==> (r matches Some(p) && (simple_base(d@) ==> exists|models: Seq<char>|
            #[trigger] app_dir_path(d@, "models"@, models) && joined(models, whisper_file_spec(rt), p@))),
{
    let file = current_whisper_model_file(rt);
    proof {
        lemma_whisper_file_plain(rt);
        assert(whisper_file_spec(rt).contains(whisper_file_spec(rt)[0]));
    }
    match default_models_dir(data_dir) {
        Some(dir) => {
            let p = join_path(dir.as_str(), file.as_str());
            Some(p)
        },
        None => None,
    }
}

/// The cleanup model file for local inference.
pub const LLAMA_MODEL_FILE: &'static str = "qwen2.5-1.5b-instruct-q4_k_m.gguf";

/// The local cleanup model's path under the models directory.
pub fn default_llama_model_path(data_dir: Option<&str>) -> (r: Option<String>)
    ensures
        data_dir is None ==> r is None,
        data_dir matches Some(d) ==> (r matches Some(p) && (simple_base(d@) ==> exists|models: Seq<char>|
            #[trigger] app_dir_path(d@, "models"@, models) && joined(models, LLAMA_MODEL_FILE@, p@))),
{
    proof {
        reveal_strlit("qwen2.5-1.5b-instruct-q4_k_m.gguf");
        assert(LLAMA_MODEL_FILE@.len() == 33);
        assert(relative_leaf(LLAMA_MODEL_FILE@));
    }
    match default_models_dir(data_dir) {
        Some(dir) => Some(join_path(dir.as_str(), LLAMA_MODEL_FILE)),
        None => None,
    }
}

/// Where Whisper models can be downloaded from.
pub const WHISPER_MODEL_URL: &'static str = "https://huggingface.co/ggerganov/whisper.cpp/resolve/main/ggml-tiny.en.bin";

/// A transcription error naming the missing Whisper model file and the
/// command that downloads it.
pub open spec fn whisper_missing_spec(path: Seq<char>) -> Seq<char> {
    "Whisper model not found at "@ + path + ".\nDownload it once with:\ncurl -L "@ + WHISPER_MODEL_URL@
        + " -o \""@ + path + "\"\n(creates the parent directory first if needed)"@
}

pub fn missing_model_error(path: &str) -> (e: BoothError)
    ensures
        e matches BoothError::Transcription(m) && m@ == whisper_missing_spec(path@),
{
    let p = str_chars(path);
    let mut s = "Whisper model not found at ".to_string();
    push_chars(&mut s, &p);
    let a = str_chars(".\nDownload it once with:\ncurl -L ");
    push_chars(&mut s, &a);
    let u = str_chars(WHISPER_MODEL_URL);
    push_chars(&mut s, &u);
    let b = str_chars(" -o \"");
    push_chars(&mut s, &b);
    push_chars(&mut s, &p);
    let c = str_chars("\"\n(creates the parent directory first if needed)");
    push_chars(&mut s, &c);
    BoothError::Transcription(s)
}

/// A formatting error naming the missing local cleanup model.
pub open spec fn llama_missing_spec(path: Seq<char>) -> Seq<char> {
    "Qwen LLM model not found at "@ + path
        + ".\nDownload it once with:\npnpm download:llm\n(fetches qwen2.5-1.5b-instruct-q4_k_m.gguf from HuggingFace, ~1GB)"@
}

pub fn missing_llama_model_error(path: &str) -> (e: BoothError)
    ensures
        e matches BoothError::Formatting(m) && m@ == llama_missing_spec(path@),
{
    let s = concat_str("Qwen LLM model not found at ", path);
    let t = concat_str(
        s.as_str(),
        ".\nDownload it once with:\npnpm download:llm\n(fetches qwen2.5-1.5b-instruct-q4_k_m.gguf from HuggingFace, ~1GB)",
    );
    BoothError::Formatting(t)
}

/// A model file that an engine needs: its path when it exists (the caller
/// checks the disk), otherwise an internal error naming the engine, the
/// file and where it was expected.
pub open spec fn missing_file_spec(engine: Seq<char>, name: Seq<char>, path: Seq<char>) -> Seq<char> {
    engine + ": missing model file "@ + name + " (expected at "@ + path + ")"@
}

pub fn require_file(engine: &str, dir: &str, name: &str, exists: bool) -> (r: Result<String, BoothError>)
    ensures
        match r {
            Ok(p) => exists && (simple_base(dir@) && relative_leaf(name@) ==> joined(dir@, name@, p@)),
            Err(e) => !exists && (e matches BoothError::Internal(m) && exists|p: Seq<char>|
                #[trigger] missing_file_spec(engine@, name@, p) == m@ && (simple_base(dir@) && relative_leaf(name@)
                ==> joined(dir@, name@, p))),
        },
{
    let path = join_path(dir, name);
    if !exists {
        let s = concat_str(engine, ": missing model file ");
        let s = concat_str(s.as_str(), name);
        let s = concat_str(s.as_str(), " (expected at ");
        let s = concat_str(s.as_str(), path.as_str());
        let s = concat_str(s.as_str(), ")");
        let e = BoothError::internal(s.as_str());
        assert(missing_file_spec(engine@, name@, path@) == s@);
        return Err(e);
    }
    Ok(path)
}

/// Where benchmark captures live, or an internal error when the data
/// directory is unknown.
pub fn captures_dir(data_dir: Option<&str>) -> (r: Result<String, BoothError>)
    ensures
        data_dir is None ==> (r matches Err(BoothError::Internal(m)) && m@ == "could not resolve user data dir"@),
        data_dir matches Some(d) ==> (r matches Ok(p) && (simple_base(d@) ==> app_dir_path(d@, "captures"@, p@)
            && simple_base(p@))),
{
    proof {
        reveal_strlit("captures");
        assert("captures"@.len() == 8);
        assert(relative_leaf("captures"@));
    }
    match data_dir {
        Some(d) => Ok(app_subdir(d, "captures")),
        None => Err(BoothError::internal("could not resolve user data dir")),
    }
}

/// The absolute path of a capture's audio, for the front end.
pub fn wav_path(data_dir: Option<&str>, wav_filename: &str) -> (r: Result<String, BoothError>)
    ensures
        data_dir is None ==> (r matches Err(BoothError::Internal(m)) && m@ == "could not resolve user data dir"@),
        data_dir matches Some(d) ==> (r matches Ok(p) && (simple_base(d@) && relative_leaf(wav_filename@)
            ==> exists|dir: Seq<char>|
            #[trigger] app_dir_path(d@, "captures"@, dir) && joined(dir, wav_filename@, p@))),
{
    let dir = captures_dir(data_dir)?;
    Ok(join_path(dir.as_str(), wav_filename))
}

/// A capture's stem: its file name without a trailing `.wav`.
pub open spec fn capture_stem(wav_filename: Seq<char>) -> Seq<char> {
    if ends_with_spec(wav_filename, ".wav"@) {
        wav_filename.take(wav_filename.len() - 4)
    } else {
        wav_filename
    }
}

/// The graded-variants file next to a capture: `<stem>.variants.json`.
pub fn variants_file_name(wav_filename: &str) -> (r: String)
    ensures
        r@ == capture_stem(wav_filename@) + ".variants.json"@,
{
    let v = str_chars(wav_filename);
    let suffix = str_chars(".wav");
    proof {
        reveal_strlit(".wav");
    }
    let stem = if ends_with_chars(&v, &suffix) {
        let mut k: usize = 0;
        let mut t: Vec<char> = Vec::new();
        while k < v.len() - 4
            invariant
                v.len() >= 4,
                k <= v.len() - 4,
                t@ == v@.take(k as int),
            decreases v.len() - 4 - k,
        {
            t.push(v[k]);
            assert(v@.take(k + 1) == v@.take(k as int).push(v@[k as int]));
            k = k + 1;
        }
        t
    } else {
        v
    };
    let s = chars_to_string(&stem);
    concat_str(s.as_str(), ".variants.json")
}

} // verus!
