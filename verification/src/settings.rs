//! User settings: the dictation style, the settings document and its
//! validation, the Whisper model table, hotkey chord rules, and the
//! runtime copy of the settings that the rest of the app reads.
use vstd::prelude::*;
use crate::error::BoothError;
use crate::learning::seq_eq_chars;
use crate::text::{
    chars_to_string, join, join_words, lower_chars, lower_seq, push_chars, sort_spec, sort_words,
    split_on, split_on_char, str_chars, trim_chars, trim_spec, views,
};

verus! {

/// How the cleanup pass rewrites a transcript.
#[derive(Debug, Clone, Copy, PartialEq, Eq, Structural)]
pub enum Style {
    Raw,
    Formal,
    Casual,
    Excited,
    VeryCasual,
    /// Star-Trek-style log entry: stardate prefix plus a formal rewrite.
    CaptainsLog,
}

impl Default for Style {
    fn default() -> (s: Style)
        ensures
            s == Style::Casual,
    {
        Style::Casual
    }
}

impl Style {
    /// How aggressively the cleanup pass rewrites: `0` keeps every word,
    /// `1` drops disfluencies and self-corrections.
    pub open spec fn aggressiveness_spec(self) -> u8 {
        match self {
            Style::Raw => 0,
            _ => 1,
        }
    }

    pub fn aggressiveness(&self) -> (a: u8)
        ensures
            a == self.aggressiveness_spec(),
    {
        match self {
            Style::Raw => 0,
            Style::Formal | Style::Casual | Style::Excited | Style::VeryCasual
            | Style::CaptainsLog => 1,
        }
    }
}

/// A learned or user-entered substitution: transcripts that say `wrong`
/// should say `right`.
#[derive(Debug)]
pub struct MisheardReplacement {
    pub wrong: String,
    pub right: String,
}

impl MisheardReplacement {
    pub fn new(wrong: &str, right: &str) -> (m: MisheardReplacement)
        ensures
            m.wrong@ == wrong@,
            m.right@ == right@,
    {
        MisheardReplacement { wrong: wrong.to_string(), right: right.to_string() }
    }

    /// A copy with equal views.
    pub fn duplicate(&self) -> (m: MisheardReplacement)
        ensures
            m.wrong@ == self.wrong@,
            m.right@ == self.right@,
    {
        MisheardReplacement { wrong: self.wrong.clone(), right: self.right.clone() }
    }
}


/// Settings document schema version written by this library.
pub const CURRENT_SCHEMA_VERSION: u16 = 1;

#[derive(Debug)]
pub struct WhisperSettings {
    pub model: String,
}

#[derive(Debug)]
pub struct LlmSettings {
    pub enabled: bool,
    pub endpoint: String,
    pub model: String,
    pub api_key: Option<String>,
}

#[derive(Debug)]
pub struct EmbedSettings {
    pub enabled: bool,
    pub endpoint: String,
    pub model: String,
    pub api_key: Option<String>,
}

#[derive(Debug)]
pub struct HotkeySettings {
    pub ptt: String,
    pub toggle: String,
    pub quick_paste: String,
}

#[derive(Debug)]
pub struct AppStyleOverride {
    pub app_id: String,
    pub style: Style,
}

/// The settings document.
#[derive(Debug)]
pub struct AppSettings {
    pub schema_version: u16,
    pub style: Style,
    pub privacy_mode: bool,
    pub whisper: WhisperSettings,
    pub llm: LlmSettings,
    pub embed: EmbedSettings,
    pub hotkeys: HotkeySettings,
    /// Free-text vocabulary (comma, newline or semicolon separated).
    pub vocabulary: String,
    pub per_app_styles: Vec<AppStyleOverride>,
    /// Wrong-to-right substitutions handed to the cleanup prompt.
    pub commonly_misheard: Vec<MisheardReplacement>,
    /// Include an OCR of the focused window in the cleanup prompt.
    pub cleanup_window_ocr: bool,
    /// Learn single-word corrections after a paste.
    pub auto_learn_corrections: bool,
    /// Input device name to pin; empty means the system default.
    pub audio_input_device: String,
    /// Prefer a built-in microphone when the default input is Bluetooth.
    pub prefer_builtin_mic_with_bluetooth: bool,
}

/// A partial update of [`AppSettings`]: `Some` fields replace, `None`
/// fields keep.
#[derive(Debug, Default)]
pub struct SettingsPatch {
    pub style: Option<Style>,
    pub privacy_mode: Option<bool>,
    pub whisper: Option<WhisperSettings>,
    pub llm: Option<LlmSettings>,
    pub embed: Option<EmbedSettings>,
    pub hotkeys: Option<HotkeySettings>,
    pub vocabulary: Option<String>,
    pub per_app_styles: Option<Vec<AppStyleOverride>>,
    pub commonly_misheard: Option<Vec<MisheardReplacement>>,
    pub cleanup_window_ocr: Option<bool>,
    pub auto_learn_corrections: Option<bool>,
    pub audio_input_device: Option<String>,
    pub prefer_builtin_mic_with_bluetooth: Option<bool>,
}

/// Choices offered by the settings panel.
#[derive(Debug)]
pub struct SettingsOptions {
    pub whisper_models: Vec<ModelOption>,
    pub llm_models: Vec<ModelOption>,
    pub embed_models: Vec<ModelOption>,
}

/// One selectable model.
#[derive(Debug)]
pub struct ModelOption {
    pub value: String,
    pub label: String,
    pub detail: String,
    pub file: Option<String>,
    /// `false` for entries listed only as a roadmap signal.
    pub available: bool,
}

/// The default of [`ModelOption::available`] when a document omits it.
pub fn default_true() -> (b: bool)
    ensures
        b,
{
    true
}

/// One row of the Whisper model table.
#[derive(Debug, Clone, Copy)]
pub struct WhisperModel {
    pub value: &'static str,
    pub file: &'static str,
    /// `false` for engines listed as a roadmap signal only.
    pub available: bool,
    pub label: &'static str,
    pub detail: &'static str,
    pub download_arg: &'static str,
}

/// Contents of a [`WhisperModel`] row.
pub ghost struct WhisperModelView {
    pub value: Seq<char>,
    pub file: Seq<char>,
    pub available: bool,
    pub label: Seq<char>,
    pub detail: Seq<char>,
    pub download_arg: Seq<char>,
}

impl View for WhisperModel {
    type V = WhisperModelView;

    open spec fn view(&self) -> WhisperModelView {
        WhisperModelView {
            value: self.value@,
            file: self.file@,
            available: self.available,
            label: self.label@,
            detail: self.detail@,
            download_arg: self.download_arg@,
        }
    }
}

pub open spec fn model_row(
    value: &str,
    file: &str,
    available: bool,
    label: &str,
    detail: &str,
    download_arg: &str,
) -> WhisperModelView {
    WhisperModelView {
        value: value@,
        file: file@,
        available,
        label: label@,
        detail: detail@,
        download_arg: download_arg@,
    }
}

/// The Whisper model table, in picker order.
pub open spec fn model_table() -> Seq<WhisperModelView> {
    seq![
        model_row("tiny.en", "ggml-tiny.en.bin", true, "Whisper tiny.en (39M, 75MB)", "Fastest, lowest accuracy.", "tiny"),
        model_row("base.en", "ggml-base.en.bin", true, "Whisper base.en (74M, 142MB)", "Still quick, noticeably cleaner than tiny.", "base"),
        model_row("small.en", "ggml-small.en.bin", true, "Whisper small.en (244M, 466MB)", "Recommended quality/speed balance.", "small"),
        model_row("medium.en", "ggml-medium.en.bin", true, "Whisper medium.en (769M, 1.5GB)", "Better accuracy, higher latency.", "medium"),
        model_row("large-v3-turbo", "ggml-large-v3-turbo.bin", true, "Whisper large-v3-turbo (809M, 1.6GB)", "Best local quality option for strong Macs.", "large-v3-turbo"),
        model_row("parakeet-tdt-0.6b-v3", "parakeet-tdt-0.6b-v3.onnx", false, "NVIDIA Parakeet TDT 0.6B v3 (coming soon \u{2014} Wave 5+)", "Faster + more accurate than Whisper, native streaming. Wired via sherpa-onnx in a later wave.", "parakeet"),
    ]
}

pub open spec fn model_views(v: Seq<WhisperModel>) -> Seq<WhisperModelView> {
    v.map_values(|m: WhisperModel| m@)
}

/// The Whisper model table.
pub fn whisper_models() -> (v: Vec<WhisperModel>)
    ensures
        model_views(v@) == model_table(),
{
    let v = vec![
        WhisperModel {
            value: "tiny.en",
            file: "ggml-tiny.en.bin",
            available: true,
            label: "Whisper tiny.en (39M, 75MB)",
            detail: "Fastest, lowest accuracy.",
            download_arg: "tiny",
        },
        WhisperModel {
            value: "base.en",
            file: "ggml-base.en.bin",
            available: true,
            label: "Whisper base.en (74M, 142MB)",
            detail: "Still quick, noticeably cleaner than tiny.",
            download_arg: "base",
        },
        WhisperModel {
            value: "small.en",
            file: "ggml-small.en.bin",
            available: true,
            label: "Whisper small.en (244M, 466MB)",
            detail: "Recommended quality/speed balance.",
            download_arg: "small",
        },
        WhisperModel {
            value: "medium.en",
            file: "ggml-medium.en.bin",
            available: true,
            label: "Whisper medium.en (769M, 1.5GB)",
            detail: "Better accuracy, higher latency.",
            download_arg: "medium",
        },
        WhisperModel {
            value: "large-v3-turbo",
            file: "ggml-large-v3-turbo.bin",
            available: true,
            label: "Whisper large-v3-turbo (809M, 1.6GB)",
            detail: "Best local quality option for strong Macs.",
            download_arg: "large-v3-turbo",
        },
        WhisperModel {
            value: "parakeet-tdt-0.6b-v3",
            file: "parakeet-tdt-0.6b-v3.onnx",
            available: false,
            label: "NVIDIA Parakeet TDT 0.6B v3 (coming soon \u{2014} Wave 5+)",
            detail: "Faster + more accurate than Whisper, native streaming. Wired via sherpa-onnx in a later wave.",
            download_arg: "parakeet",
        },
    ];
    assert(model_views(v@) == model_table());
    v
}

/// `s` without `suffix`, if it ends with it.
pub open spec fn strip_suffix_spec(s: Seq<char>, suffix: Seq<char>) -> Seq<char> {
    if s.len() >= suffix.len() && s.subrange(s.len() - suffix.len(), s.len() as int) == suffix {
        s.take(s.len() - suffix.len())
    } else {
        s
    }
}

/// `s` without `prefix`, if it starts with it.
pub open spec fn strip_prefix_spec(s: Seq<char>, prefix: Seq<char>) -> Seq<char> {
    if s.len() >= prefix.len() && s.take(prefix.len() as int) == prefix {
        s.skip(prefix.len() as int)
    } else {
        s
    }
}

/// The canonical model value for a user-entered model name or file name.
pub open spec fn normalize_spec(value: Seq<char>) -> Seq<char> {
    let v = strip_prefix_spec(strip_suffix_spec(trim_spec(value), ".bin"@), "ggml-"@);
    if v == "tiny"@ {
        "tiny.en"@
    } else if v == "base"@ {
        "base.en"@
    } else if v == "small"@ {
        "small.en"@
    } else if v == "medium"@ {
        "medium.en"@
    } else {
        v
    }
}

/// Trimming leaves a word without whitespace at its ends as it is, and
/// takes off one space on either side of it.
proof fn lemma_trim_word(w: Seq<char>)
    requires
        w.len() > 0,
        !crate::text::is_ws(w[0]),
        !crate::text::is_ws(w.last()),
    ensures
        trim_spec(w) == w,
        trim_spec(seq![' '] + w + seq![' ']) == w,
{
    let p = seq![' '] + w + seq![' '];
    let q = w + seq![' '];
    assert(p.drop_first() =~= q);
    assert(q[0] == w[0]);
    assert(q.drop_last() =~= w);
    assert(crate::text::trim_start_spec(q) == q);
    assert(crate::text::trim_start_spec(w) == w);
    assert(crate::text::trim_end_spec(w) == w);
}

/// The normal form of a model's file name `ggml-<w>.bin` is `w`'s, and a
/// name without the `.bin` suffix or the `ggml-` prefix keeps its shape.
proof fn lemma_normalize_file(w: Seq<char>)
    requires
        w.len() > 0,
        !crate::text::is_ws(w.last()),
    ensures
        strip_prefix_spec(strip_suffix_spec(trim_spec("ggml-"@ + w + ".bin"@), ".bin"@), "ggml-"@) == w,
{
    reveal_strlit("ggml-");
    reveal_strlit(".bin");
    let x = "ggml-"@ + w + ".bin"@;
    lemma_trim_word(x);
    assert(x.subrange(x.len() - 4, x.len() as int) =~= ".bin"@);
    let y = x.take(x.len() - 4);
    assert(y =~= "ggml-"@ + w);
    assert(y.take(5) =~= "ggml-"@);
    assert(y.skip(5) =~= w);
}

/// Each available model's file name, value, download argument, and value
/// padded with spaces all normalise to the model's value.
pub proof fn normalize_round_trip(i: int)
    requires
        0 <= i < model_table().len(),
        model_table()[i].available,
    ensures
        normalize_spec(model_table()[i].file) == model_table()[i].value,
        normalize_spec(model_table()[i].value) == model_table()[i].value,
        normalize_spec(model_table()[i].download_arg) == model_table()[i].value,
        normalize_spec(seq![' '] + model_table()[i].value + seq![' ']) == model_table()[i].value,
{
    reveal_strlit("ggml-");
    reveal_strlit(".bin");
    reveal_strlit("tiny");
    reveal_strlit("base");
    reveal_strlit("small");
    reveal_strlit("medium");
    reveal_strlit("tiny.en");
    reveal_strlit("base.en");
    reveal_strlit("small.en");
    reveal_strlit("medium.en");
    reveal_strlit("large-v3-turbo");
    reveal_strlit("ggml-tiny.en.bin");
    reveal_strlit("ggml-base.en.bin");
    reveal_strlit("ggml-small.en.bin");
    reveal_strlit("ggml-medium.en.bin");
    reveal_strlit("ggml-large-v3-turbo.bin");
    let m = model_table()[i];
    assert(m.file =~= "ggml-"@ + m.value + ".bin"@);
    lemma_normalize_file(m.value);
    lemma_trim_word(m.value);
    lemma_trim_word(m.download_arg);
    let v = m.value;
    assert(v.len() < 4 || v.subrange(v.len() - 4, v.len() as int) != ".bin"@) by {
        if v.len() >= 4 {
            assert(v.subrange(v.len() - 4, v.len() as int)[0] != ".bin"@[0]);
        }
    }
    assert(v.take(5) != "ggml-"@) by {
        assert(v[0] != 'g');
        assert(v.take(5)[0] == v[0]);
    }
    let d = m.download_arg;
    assert(d.len() < 4 || d.subrange(d.len() - 4, d.len() as int) != ".bin"@) by {
        if d.len() >= 4 {
            assert(d.subrange(d.len() - 4, d.len() as int)[3] != ".bin"@[3]);
        }
    }
    assert(d.len() < 5 || d.take(5) != "ggml-"@) by {
        assert(d[0] != 'g');
        if d.len() >= 5 {
            assert(d.take(5)[0] == d[0]);
        }
    }
}

fn strip_suffix_chars(s: &Vec<char>, suffix: &str) -> (r: Vec<char>)
    ensures
        r@ == strip_suffix_spec(s@, suffix@),
{
    let suf = str_chars(suffix);
    if s.len() < suf.len() {
        return clone_chars(s);
    }
    let start = s.len() - suf.len();
    let tail = slice_chars(s, start, s.len());
    if seq_eq_chars(&tail, &suf) {
        slice_chars(s, 0, start)
    } else {
        clone_chars(s)
    }
}

fn strip_prefix_chars(s: &Vec<char>, prefix: &str) -> (r: Vec<char>)
    ensures
        r@ == strip_prefix_spec(s@, prefix@),
{
    let pre = str_chars(prefix);
    if s.len() < pre.len() {
        return clone_chars(s);
    }
    let head = slice_chars(s, 0, pre.len());
    if seq_eq_chars(&head, &pre) {
        slice_chars(s, pre.len(), s.len())
    } else {
        clone_chars(s)
    }
}

/// `s[lo..hi]` as a new vector.
pub fn slice_chars(s: &Vec<char>, lo: usize, hi: usize) -> (r: Vec<char>)
    requires
        lo <= hi <= s.len(),
    ensures
        r@ == s@.subrange(lo as int, hi as int),
{
    let mut r: Vec<char> = Vec::new();
    let mut k = lo;
    while k < hi
        invariant
            lo <= k <= hi <= s.len(),
            r@ == s@.subrange(lo as int, k as int),
        decreases hi - k,
    {
        r.push(s[k]);
        assert(s@.subrange(lo as int, k + 1) == s@.subrange(lo as int, k as int).push(s@[k as int]));
        k = k + 1;
    }
    r
}

pub fn clone_chars(s: &Vec<char>) -> (r: Vec<char>)
    ensures
        r@ == s@,
{
    let r = slice_chars(s, 0, s.len());
    assert(s@.subrange(0, s@.len() as int) == s@);
    r
}

/// Is `s` exactly the literal `lit`?
pub fn eq_lit(s: &Vec<char>, lit: &str) -> (b: bool)
    ensures
        b == (s@ == lit@),
{
    let l = str_chars(lit);
    seq_eq_chars(s, &l)
}

/// Canonical model value: trims, drops a `.bin` suffix and a `ggml-`
/// prefix, and maps the bare English model sizes to their `.en` names.
pub fn normalize_whisper_model(value: &str) -> (r: String)
    ensures
        r@ == normalize_spec(value@),
{
    let v = str_chars(value);
    let t = trim_chars(&v);
    let a = strip_suffix_chars(&t, ".bin");
    let b = strip_prefix_chars(&a, "ggml-");
    if eq_lit(&b, "tiny") {
        "tiny.en".to_string()
    } else if eq_lit(&b, "base") {
        "base.en".to_string()
    } else if eq_lit(&b, "small") {
        "small.en".to_string()
    } else if eq_lit(&b, "medium") {
        "medium.en".to_string()
    } else {
        chars_to_string(&b)
    }
}

/// First index at or after `i` of a table row whose value is `norm` or
/// whose file is `raw`.
pub open spec fn find_model_from(
    table: Seq<WhisperModelView>,
    norm: Seq<char>,
    raw: Seq<char>,
    i: nat,
) -> Option<nat>
    decreases table.len() - i,
{
    if i >= table.len() {
        None
    } else if table[i as int].value == norm || table[i as int].file == raw {
        Some(i)
    } else {
        find_model_from(table, norm, raw, i + 1)
    }
}

/// The table row that `value` names, if any.
pub open spec fn model_for_spec(value: Seq<char>) -> Option<WhisperModelView> {
    match find_model_from(model_table(), normalize_spec(value), value, 0) {
        Some(i) => Some(model_table()[i as int]),
        None => None,
    }
}

proof fn lemma_find_model_in_range(table: Seq<WhisperModelView>, norm: Seq<char>, raw: Seq<char>, i: nat)
    ensures
        find_model_from(table, norm, raw, i) matches Some(k) ==> i <= k < table.len(),
    decreases table.len() - i,
{
    if i < table.len() && !(table[i as int].value == norm || table[i as int].file == raw) {
        lemma_find_model_in_range(table, norm, raw, i + 1);
    }
}

/// The model a name finds is a row of the table.
pub proof fn lemma_model_for_in_table(value: Seq<char>)
    ensures
        model_for_spec(value) matches Some(m) ==> exists|i: int| 0 <= i < model_table().len() && #[trigger] model_table()[i] == m,
{
    lemma_find_model_in_range(model_table(), normalize_spec(value), value, 0);
}

/// Every file of the model table is a plain name: non-empty, with no `/`,
/// `\\` or `:`.
pub proof fn lemma_table_files_plain(i: int)
    requires
        0 <= i < model_table().len(),
    ensures
        model_table()[i].file.len() > 0,
        !model_table()[i].file.contains('/'),
        !model_table()[i].file.contains('\\'),
        !model_table()[i].file.contains(':'),
{
    reveal_strlit("ggml-tiny.en.bin");
    reveal_strlit("ggml-base.en.bin");
    reveal_strlit("ggml-small.en.bin");
    reveal_strlit("ggml-medium.en.bin");
    reveal_strlit("ggml-large-v3-turbo.bin");
    reveal_strlit("parakeet-tdt-0.6b-v3.onnx");
}

/// Look up a model by name or file name.
pub fn whisper_model_for(value: &str) -> (r: Option<WhisperModel>)
    ensures
        match r {
            Some(m) => model_for_spec(value@) == Some(m@),
            None => model_for_spec(value@) is None,
        },
{
    let normalized = normalize_whisper_model(value);
    let models = whisper_models();
    let mut i: usize = 0;
    while i < models.len()
        invariant
            i <= models.len(),
            model_views(models@) == model_table(),
            normalized@ == normalize_spec(value@),
            find_model_from(model_table(), normalized@, value@, 0) == find_model_from(
                model_table(),
                normalized@,
                value@,
                i as nat,
            ),
        decreases models.len() - i,
    {
        let m = models[i];
        assert(model_table()[i as int] == m@);
        let mv = str_chars(m.value);
        let nv = str_chars(normalized.as_str());
        let mf = str_chars(m.file);
        let rv = str_chars(value);
        if seq_eq_chars(&mv, &nv) || seq_eq_chars(&mf, &rv) {
            return Some(m);
        }
        i = i + 1;
    }
    None
}

/// The model file for `value`, falling back to `ggml-tiny.en.bin`.
pub fn whisper_model_file(value: &str) -> (f: &'static str)
    ensures
        f@ == match model_for_spec(value@) {
            Some(m) => m.file,
            None => "ggml-tiny.en.bin"@,
        },
{
    match whisper_model_for(value) {
        Some(m) => m.file,
        None => "ggml-tiny.en.bin",
    }
}


// ---------------------------------------------------------------------
// Hotkey chords

/// `parts` without its empty elements.
pub open spec fn nonempty_only(parts: Seq<Seq<char>>) -> Seq<Seq<char>>
    decreases parts.len(),
{
    if parts.len() == 0 {
        parts
    } else if parts.last().len() == 0 {
        nonempty_only(parts.drop_last())
    } else {
        nonempty_only(parts.drop_last()).push(parts.last())
    }
}

/// The `+`-separated parts of a chord, trimmed and ASCII-lowercased,
/// empty parts dropped.
pub open spec fn chord_parts_spec(chord: Seq<char>) -> Seq<Seq<char>> {
    nonempty_only(split_on(chord, '+').map_values(|p: Seq<char>| lower_seq(trim_spec(p))))
}

pub open spec fn is_modifier_token(p: Seq<char>) -> bool {
    ||| p == "ctrl"@
    ||| p == "control"@
    ||| p == "cmd"@
    ||| p == "meta"@
    ||| p == "win"@
    ||| p == "super"@
    ||| p == "option"@
    ||| p == "alt"@
    ||| p == "shift"@
}

pub open spec fn count_modifiers(parts: Seq<Seq<char>>) -> nat
    decreases parts.len(),
{
    if parts.len() == 0 {
        0
    } else {
        count_modifiers(parts.drop_last()) + if is_modifier_token(parts.last()) {
            1nat
        } else {
            0nat
        }
    }
}

/// Spelling a chord part is compared under (synonyms merged).
pub open spec fn canonical_part(p: Seq<char>) -> Seq<char> {
    if p == "control"@ {
        "ctrl"@
    } else if p == "command"@ || p == "cmd"@ || p == "win"@ || p == "super"@ {
        "meta"@
    } else if p == "option"@ {
        "alt"@
    } else if p == "spacebar"@ {
        "space"@
    } else {
        p
    }
}

/// The chord's parts, canonicalised, sorted and joined with `+`.
pub open spec fn normalized_chord_spec(chord: Seq<char>) -> Seq<char> {
    join(sort_spec(chord_parts_spec(chord).map_values(|p: Seq<char>| canonical_part(p))), "+"@)
}

/// A chord's normalised form does not depend on the order in which its
/// parts are written: chords with the same canonical parts (counted with
/// multiplicity) normalise alike, so `Shift + Ctrl + K` and `ctrl+k+shift`
/// are the same binding.
pub proof fn chord_part_order_is_irrelevant(a: Seq<char>, b: Seq<char>)
    requires
        chord_parts_spec(a).map_values(|p: Seq<char>| canonical_part(p)).to_multiset()
            == chord_parts_spec(b).map_values(|p: Seq<char>| canonical_part(p)).to_multiset(),
    ensures
        normalized_chord_spec(a) == normalized_chord_spec(b),
{
    crate::text::sort_ignores_input_order(
        chord_parts_spec(a).map_values(|p: Seq<char>| canonical_part(p)),
        chord_parts_spec(b).map_values(|p: Seq<char>| canonical_part(p)),
    );
}

pub open spec fn is_meta_token(p: Seq<char>) -> bool {
    p == "cmd"@ || p == "command"@ || p == "meta"@ || p == "win"@ || p == "super"@
}

pub open spec fn is_alt_token(p: Seq<char>) -> bool {
    p == "option"@ || p == "alt"@
}

pub open spec fn is_reserved_key_token(p: Seq<char>) -> bool {
    ||| p == "q"@
    ||| p == "tab"@
    ||| p == "space"@
    ||| p == "w"@
    ||| p == "m"@
    ||| p == "h"@
    ||| p == "comma"@
    ||| p == ","@
}

/// A chord with Meta, without Alt, and with one of the keys the OS
/// reserves for Meta shortcuts.
pub open spec fn is_blocked_spec(parts: Seq<Seq<char>>) -> bool {
    &&& exists|i: int| 0 <= i < parts.len() && is_meta_token(#[trigger] parts[i])
    &&& !(exists|i: int| 0 <= i < parts.len() && is_alt_token(#[trigger] parts[i]))
    &&& exists|i: int| 0 <= i < parts.len() && is_reserved_key_token(#[trigger] parts[i])
}

/// The error message for one binding, if it is rejected.
pub open spec fn hotkey_error(label: Seq<char>, chord: Seq<char>, allow_modifier_only: bool) -> Option<Seq<char>> {
    let parts = chord_parts_spec(chord);
    let mods = count_modifiers(parts);
    let non_mods = if parts.len() >= mods { parts.len() - mods } else { 0 };
    if parts.len() < 2 || mods == 0 {
        Some(label + " hotkey needs at least one modifier plus another key"@)
    } else if !allow_modifier_only && non_mods == 0 {
        Some(label + " hotkey needs a non-modifier key"@)
    } else if allow_modifier_only && non_mods == 0 && mods < 2 {
        Some(label + " hotkey cannot be a single modifier"@)
    } else if is_blocked_spec(parts) {
        Some(label + " hotkey conflicts with a system shortcut"@)
    } else {
        None
    }
}

/// A binding that holds a Meta part (`cmd`, `command`, `meta`, `win` or
/// `super`) and a key that the OS reserves for Meta shortcuts (`q`, `tab`,
/// `space`, `w`, `m`, `h`, `comma` or `,`), and no Alt part (`alt` or
/// `option`), is rejected, whichever label and modifier-only rule apply.
pub proof fn os_meta_shortcuts_are_rejected(label: Seq<char>, chord: Seq<char>, allow_modifier_only: bool, m: int, k: int)
    requires
        0 <= m < chord_parts_spec(chord).len(),
        ({
            let p = chord_parts_spec(chord)[m];
            p == "cmd"@ || p == "command"@ || p == "meta"@ || p == "win"@ || p == "super"@
        }),
        0 <= k < chord_parts_spec(chord).len(),
        ({
            let p = chord_parts_spec(chord)[k];
            p == "q"@ || p == "tab"@ || p == "space"@ || p == "w"@ || p == "m"@ || p == "h"@ || p == "comma"@ || p == ","@
        }),
        forall|i: int| 0 <= i < chord_parts_spec(chord).len() ==> #[trigger] chord_parts_spec(chord)[i] != "alt"@
            && chord_parts_spec(chord)[i] != "option"@,
    ensures
        hotkey_error(label, chord, allow_modifier_only) is Some,
{
    let parts = chord_parts_spec(chord);
    assert(is_meta_token(parts[m]));
    assert(is_reserved_key_token(parts[k]));
    assert(!(exists|i: int| 0 <= i < parts.len() && is_alt_token(#[trigger] parts[i])));
    assert(is_blocked_spec(parts));
}

proof fn lemma_no_modifier_counts_zero(parts: Seq<Seq<char>>)
    requires
        forall|i: int| 0 <= i < parts.len() ==> !is_modifier_token(#[trigger] parts[i]),
    ensures
        count_modifiers(parts) == 0,
    decreases parts.len(),
{
    if parts.len() > 0 {
        assert(!is_modifier_token(parts[parts.len() - 1]));
        assert forall|i: int| 0 <= i < parts.drop_last().len() implies !is_modifier_token(#[trigger] parts.drop_last()[i]) by {
            assert(parts.drop_last()[i] == parts[i]);
        }
        lemma_no_modifier_counts_zero(parts.drop_last());
    }
}

/// A binding needs a modifier plus another part: one made of a single
/// part, or with no part naming a modifier (`ctrl`, `control`, `cmd`,
/// `meta`, `win`, `super`, `option`, `alt`, `shift`), is rejected.
pub proof fn bindings_need_a_modifier_and_another_part(label: Seq<char>, chord: Seq<char>, allow_modifier_only: bool)
    requires
        chord_parts_spec(chord).len() < 2 || forall|i: int| 0 <= i < chord_parts_spec(chord).len() ==> {
            let p = #[trigger] chord_parts_spec(chord)[i];
            !(p == "ctrl"@ || p == "control"@ || p == "cmd"@ || p == "meta"@ || p == "win"@ || p == "super"@
                || p == "option"@ || p == "alt"@ || p == "shift"@)
        },
    ensures
        hotkey_error(label, chord, allow_modifier_only) is Some,
{
    let parts = chord_parts_spec(chord);
    if parts.len() >= 2 {
        assert forall|i: int| 0 <= i < parts.len() implies !is_modifier_token(#[trigger] parts[i]) by {}
        lemma_no_modifier_counts_zero(parts);
    }
}

/// The error message for a set of bindings, if it is rejected.
pub open spec fn bindings_error(ptt: Seq<char>, toggle: Seq<char>, quick_paste: Seq<char>) -> Option<Seq<char>> {
    if hotkey_error("Push-to-talk"@, ptt, true) is Some {
        hotkey_error("Push-to-talk"@, ptt, true)
    } else if hotkey_error("Toggle dictation"@, toggle, false) is Some {
        hotkey_error("Toggle dictation"@, toggle, false)
    } else if hotkey_error("Quick paste"@, quick_paste, false) is Some {
        hotkey_error("Quick paste"@, quick_paste, false)
    } else if normalized_chord_spec(ptt) == normalized_chord_spec(toggle)
        || normalized_chord_spec(ptt) == normalized_chord_spec(quick_paste)
        || normalized_chord_spec(toggle) == normalized_chord_spec(quick_paste) {
        Some("hotkey bindings must be unique"@)
    } else {
        None
    }
}

/// Accepted bindings are pairwise distinct once normalised, so no two
/// actions share a chord however they are spelled.
pub proof fn accepted_bindings_are_distinct(ptt: Seq<char>, toggle: Seq<char>, quick_paste: Seq<char>)
    requires
        bindings_error(ptt, toggle, quick_paste) is None,
    ensures
        normalized_chord_spec(ptt) != normalized_chord_spec(toggle),
        normalized_chord_spec(ptt) != normalized_chord_spec(quick_paste),
        normalized_chord_spec(toggle) != normalized_chord_spec(quick_paste),
{
}

/// `r` is `Ok` when `e` is `None`, and an `Internal` error carrying the
/// message `e` otherwise.
pub open spec fn reports(r: Result<(), BoothError>, e: Option<Seq<char>>) -> bool {
    match e {
        None => r is Ok,
        Some(m) => r matches Err(BoothError::Internal(x)) && x@ == m,
    }
}

fn internal_err(msg: String) -> (e: BoothError)
    ensures
        e matches BoothError::Internal(x) && x@ == msg@,
{
    BoothError::Internal(msg)
}

/// `prefix + suffix` as a new `String`.
pub fn concat_str(prefix: &str, suffix: &str) -> (s: String)
    ensures
        s@ == prefix@ + suffix@,
{
    let mut s = prefix.to_string();
    let v = str_chars(suffix);
    push_chars(&mut s, &v);
    s
}

/// The parts of a chord: split on `+`, trimmed, ASCII-lowercased, empty
/// parts dropped.
pub fn chord_parts(chord: &str) -> (r: Vec<Vec<char>>)
    ensures
        views(r@) == chord_parts_spec(chord@),
{
    let cv = str_chars(chord);
    let pieces = split_on_char(&cv, '+');
    let ghost mapped = split_on(chord@, '+').map_values(|p: Seq<char>| lower_seq(trim_spec(p)));
    let mut out: Vec<Vec<char>> = Vec::new();
    for i in 0..pieces.len()
        invariant
            views(pieces@) == split_on(chord@, '+'),
            mapped == split_on(chord@, '+').map_values(|p: Seq<char>| lower_seq(trim_spec(p))),
            views(out@) == nonempty_only(mapped.take(i as int)),
    {
        let t = trim_chars(&pieces[i]);
        let l = lower_chars(&t);
        assert(mapped.take(i + 1).drop_last() == mapped.take(i as int));
        assert(views(pieces@)[i as int] == pieces@[i as int]@);
        assert(mapped.take(i + 1).last() == l@);
        if l.len() > 0 {
            out.push(l);
            assert(views(out@) == views(out@.drop_last()).push(out@.last()@));
        }
    }
    assert(mapped.take(pieces.len() as int) == mapped);
    out
}

fn is_modifier_exec(p: &Vec<char>) -> (b: bool)
    ensures
        b == is_modifier_token(p@),
{
    eq_lit(p, "ctrl") || eq_lit(p, "control") || eq_lit(p, "cmd") || eq_lit(p, "meta") || eq_lit(
        p,
        "win",
    ) || eq_lit(p, "super") || eq_lit(p, "option") || eq_lit(p, "alt") || eq_lit(p, "shift")
}

fn canonical_part_exec(p: &Vec<char>) -> (r: Vec<char>)
    ensures
        r@ == canonical_part(p@),
{
    if eq_lit(p, "control") {
        str_chars("ctrl")
    } else if eq_lit(p, "command") || eq_lit(p, "cmd") || eq_lit(p, "win") || eq_lit(p, "super") {
        str_chars("meta")
    } else if eq_lit(p, "option") {
        str_chars("alt")
    } else if eq_lit(p, "spacebar") {
        str_chars("space")
    } else {
        clone_chars(p)
    }
}

/// The chord in canonical form: synonyms merged, parts sorted, joined
/// with `+`. Two chords that differ only in part order, case, spacing
/// or synonyms have the same canonical form.
pub fn normalized_chord(chord: &str) -> (s: String)
    ensures
        s@ == normalized_chord_spec(chord@),
{
    let parts = chord_parts(chord);
    let ghost ps = chord_parts_spec(chord@);
    let mut canon: Vec<Vec<char>> = Vec::new();
    for i in 0..parts.len()
        invariant
            views(parts@) == ps,
            views(canon@) == ps.take(i as int).map_values(|p: Seq<char>| canonical_part(p)),
    {
        let c = canonical_part_exec(&parts[i]);
        assert(ps[i as int] == parts@[i as int]@);
        canon.push(c);
        assert(views(canon@) == views(canon@.drop_last()).push(c@));
        assert(ps.take(i + 1).map_values(|p: Seq<char>| canonical_part(p)) == ps.take(
            i as int,
        ).map_values(|p: Seq<char>| canonical_part(p)).push(canonical_part(ps[i as int])));
    }
    assert(ps.take(parts.len() as int) == ps);
    let sorted = sort_words(&canon);
    join_words(&sorted, "+")
}

fn any_part(parts: &Vec<Vec<char>>, which: u8) -> (b: bool)
    requires
        which < 3,
    ensures
        which == 0 ==> (b <==> exists|i: int| 0 <= i < parts@.len() && is_meta_token(#[trigger] views(parts@)[i])),
        which == 1 ==> (b <==> exists|i: int| 0 <= i < parts@.len() && is_alt_token(#[trigger] views(parts@)[i])),
        which == 2 ==> (b <==> exists|i: int| 0 <= i < parts@.len() && is_reserved_key_token(#[trigger] views(parts@)[i])),
{
    let mut i: usize = 0;
    while i < parts.len()
        invariant
            i <= parts.len(),
            which < 3,
            which == 0 ==> forall|j: int| 0 <= j < i ==> !is_meta_token(#[trigger] views(parts@)[j]),
            which == 1 ==> forall|j: int| 0 <= j < i ==> !is_alt_token(#[trigger] views(parts@)[j]),
            which == 2 ==> forall|j: int| 0 <= j < i ==> !is_reserved_key_token(#[trigger] views(parts@)[j]),
        decreases parts.len() - i,
    {
        let p = &parts[i];
        assert(views(parts@)[i as int] == p@);
        let hit = if which == 0 {
            eq_lit(p, "cmd") || eq_lit(p, "command") || eq_lit(p, "meta") || eq_lit(p, "win")
                || eq_lit(p, "super")
        } else if which == 1 {
            eq_lit(p, "option") || eq_lit(p, "alt")
        } else {
            eq_lit(p, "q") || eq_lit(p, "tab") || eq_lit(p, "space") || eq_lit(p, "w") || eq_lit(
                p,
                "m",
            ) || eq_lit(p, "h") || eq_lit(p, "comma") || eq_lit(p, ",")
        };
        if hit {
            return true;
        }
        i = i + 1;
    }
    false
}

/// Meta chords that collide with OS shortcuts (Meta+Q, Meta+Tab, ...),
/// unless Alt is also held.
pub fn is_blocked_system_chord(parts: &Vec<Vec<char>>) -> (b: bool)
    ensures
        b == is_blocked_spec(views(parts@)),
{
    let has_meta = any_part(parts, 0);
    if !has_meta {
        return false;
    }
    let has_alt = any_part(parts, 1);
    if has_alt {
        return false;
    }
    any_part(parts, 2)
}

fn count_modifiers_exec(parts: &Vec<Vec<char>>) -> (n: usize)
    ensures
        n == count_modifiers(views(parts@)),
        n <= parts@.len(),
{
    let mut n: usize = 0;
    for i in 0..parts.len()
        invariant
            n == count_modifiers(views(parts@).take(i as int)),
            n <= i,
    {
        assert(views(parts@).take(i + 1).drop_last() == views(parts@).take(i as int));
        assert(views(parts@).take(i + 1).last() == parts@[i as int]@);
        if is_modifier_exec(&parts[i]) {
            n = n + 1;
        }
    }
    assert(views(parts@).take(parts.len() as int) == views(parts@));
    n
}

/// Check one binding: at least one modifier plus another part, a
/// non-modifier key unless modifier-only chords are allowed, and no
/// collision with an OS shortcut.
pub fn validate_hotkey(label: &str, chord: &str, allow_modifier_only: bool) -> (r: Result<(), BoothError>)
    ensures
        reports(r, hotkey_error(label@, chord@, allow_modifier_only)),
{
    let parts = chord_parts(chord);
    let mods = count_modifiers_exec(&parts);
    let non_mods = parts.len() - mods;
    if parts.len() < 2 || mods == 0 {
        return Err(internal_err(concat_str(label, " hotkey needs at least one modifier plus another key")));
    }
    if !allow_modifier_only && non_mods == 0 {
        return Err(internal_err(concat_str(label, " hotkey needs a non-modifier key")));
    }
    if allow_modifier_only && non_mods == 0 && mods < 2 {
        return Err(internal_err(concat_str(label, " hotkey cannot be a single modifier")));
    }
    if is_blocked_system_chord(&parts) {
        return Err(internal_err(concat_str(label, " hotkey conflicts with a system shortcut")));
    }
    Ok(())
}

fn string_eq(a: &String, b: &String) -> (r: bool)
    ensures
        r == (a@ == b@),
{
    let x = str_chars(a.as_str());
    let y = str_chars(b.as_str());
    seq_eq_chars(&x, &y)
}

/// Check the three bindings, then that no two of them are the same chord.
pub fn validate_hotkey_bindings(hotkeys: &HotkeySettings) -> (r: Result<(), BoothError>)
    ensures
        reports(r, bindings_error(hotkeys.ptt@, hotkeys.toggle@, hotkeys.quick_paste@)),
{
    let r1 = validate_hotkey("Push-to-talk", hotkeys.ptt.as_str(), true);
    if r1.is_err() {
        return r1;
    }
    let r2 = validate_hotkey("Toggle dictation", hotkeys.toggle.as_str(), false);
    if r2.is_err() {
        return r2;
    }
    let r3 = validate_hotkey("Quick paste", hotkeys.quick_paste.as_str(), false);
    if r3.is_err() {
        return r3;
    }
    let a = normalized_chord(hotkeys.ptt.as_str());
    let b = normalized_chord(hotkeys.toggle.as_str());
    let c = normalized_chord(hotkeys.quick_paste.as_str());
    if string_eq(&a, &b) || string_eq(&a, &c) || string_eq(&b, &c) {
        return Err(internal_err("hotkey bindings must be unique".to_string()));
    }
    Ok(())
}

/// Why a settings document is rejected, if it is.
pub open spec fn settings_error(model: Seq<char>, ptt: Seq<char>, toggle: Seq<char>, quick_paste: Seq<char>) -> Option<Seq<char>> {
    match model_for_spec(model) {
        None => Some("unsupported Whisper model: "@ + model),
        Some(m) => if !m.available {
            Some(m.label + " is not yet available \u{2014} pick a Whisper model for now"@)
        } else {
            bindings_error(ptt, toggle, quick_paste)
        },
    }
}

/// Accept a settings document only if its Whisper model is known and
/// available and its hotkey bindings are valid.
pub fn validate_settings(settings: &AppSettings) -> (r: Result<(), BoothError>)
    ensures
        reports(
            r,
            settings_error(
                settings.whisper.model@,
                settings.hotkeys.ptt@,
                settings.hotkeys.toggle@,
                settings.hotkeys.quick_paste@,
            ),
        ),
{
    let model = match whisper_model_for(settings.whisper.model.as_str()) {
        None => {
            return Err(internal_err(concat_str("unsupported Whisper model: ", settings.whisper.model.as_str())));
        },
        Some(m) => m,
    };
    if !model.available {
        return Err(internal_err(concat_str(model.label, " is not yet available \u{2014} pick a Whisper model for now")));
    }
    validate_hotkey_bindings(&settings.hotkeys)
}


// ---------------------------------------------------------------------
// Views and copies

pub open spec fn opt_view(o: Option<String>) -> Option<Seq<char>> {
    match o {
        Some(s) => Some(s@),
        None => None,
    }
}

/// Contents of an endpoint block (`llm` or `embed`).
pub ghost struct EndpointView {
    pub enabled: bool,
    pub endpoint: Seq<char>,
    pub model: Seq<char>,
    pub api_key: Option<Seq<char>>,
}

impl View for LlmSettings {
    type V = EndpointView;

    open spec fn view(&self) -> EndpointView {
        EndpointView {
            enabled: self.enabled,
            endpoint: self.endpoint@,
            model: self.model@,
            api_key: opt_view(self.api_key),
        }
    }
}

impl View for EmbedSettings {
    type V = EndpointView;

    open spec fn view(&self) -> EndpointView {
        EndpointView {
            enabled: self.enabled,
            endpoint: self.endpoint@,
            model: self.model@,
            api_key: opt_view(self.api_key),
        }
    }
}

impl View for HotkeySettings {
    type V = (Seq<char>, Seq<char>, Seq<char>);

    open spec fn view(&self) -> (Seq<char>, Seq<char>, Seq<char>) {
        (self.ptt@, self.toggle@, self.quick_paste@)
    }
}

pub open spec fn overrides_view(v: Seq<AppStyleOverride>) -> Seq<(Seq<char>, Style)> {
    v.map_values(|o: AppStyleOverride| (o.app_id@, o.style))
}

pub open spec fn misheard_view(v: Seq<MisheardReplacement>) -> Seq<(Seq<char>, Seq<char>)> {
    v.map_values(|m: MisheardReplacement| (m.wrong@, m.right@))
}

/// Contents of an [`AppSettings`] document.
pub ghost struct AppSettingsView {
    pub schema_version: u16,
    pub style: Style,
    pub privacy_mode: bool,
    pub whisper_model: Seq<char>,
    pub llm: EndpointView,
    pub embed: EndpointView,
    pub hotkeys: (Seq<char>, Seq<char>, Seq<char>),
    pub vocabulary: Seq<char>,
    pub per_app_styles: Seq<(Seq<char>, Style)>,
    pub commonly_misheard: Seq<(Seq<char>, Seq<char>)>,
    pub cleanup_window_ocr: bool,
    pub auto_learn_corrections: bool,
    pub audio_input_device: Seq<char>,
    pub prefer_builtin_mic_with_bluetooth: bool,
}

impl View for AppSettings {
    type V = AppSettingsView;

    open spec fn view(&self) -> AppSettingsView {
        AppSettingsView {
            schema_version: self.schema_version,
            style: self.style,
            privacy_mode: self.privacy_mode,
            whisper_model: self.whisper.model@,
            llm: self.llm@,
            embed: self.embed@,
            hotkeys: self.hotkeys@,
            vocabulary: self.vocabulary@,
            per_app_styles: overrides_view(self.per_app_styles@),
            commonly_misheard: misheard_view(self.commonly_misheard@),
            cleanup_window_ocr: self.cleanup_window_ocr,
            auto_learn_corrections: self.auto_learn_corrections,
            audio_input_device: self.audio_input_device@,
            prefer_builtin_mic_with_bluetooth: self.prefer_builtin_mic_with_bluetooth,
        }
    }
}

fn copy_opt_string(o: &Option<String>) -> (r: Option<String>)
    ensures
        opt_view(r) == opt_view(*o),
{
    match o {
        Some(s) => Some(s.clone()),
        None => None,
    }
}

impl LlmSettings {
    pub fn copy(&self) -> (r: LlmSettings)
        ensures
            r@ == self@,
    {
        LlmSettings {
            enabled: self.enabled,
            endpoint: self.endpoint.clone(),
            model: self.model.clone(),
            api_key: copy_opt_string(&self.api_key),
        }
    }
}

impl EmbedSettings {
    pub fn copy(&self) -> (r: EmbedSettings)
        ensures
            r@ == self@,
    {
        EmbedSettings {
            enabled: self.enabled,
            endpoint: self.endpoint.clone(),
            model: self.model.clone(),
            api_key: copy_opt_string(&self.api_key),
        }
    }
}

impl HotkeySettings {
    pub fn copy(&self) -> (r: HotkeySettings)
        ensures
            r@ == self@,
    {
        HotkeySettings {
            ptt: self.ptt.clone(),
            toggle: self.toggle.clone(),
            quick_paste: self.quick_paste.clone(),
        }
    }

    /// Default bindings: Ctrl+Cmd to hold, Ctrl+Option+Space to toggle,
    /// Option+Cmd+H for quick paste on macOS; Win and Alt in place of Cmd
    /// and Option elsewhere.
    pub fn default_for(is_macos: bool) -> (h: HotkeySettings)
        ensures
            h.ptt@ == default_ptt_spec(is_macos),
            h.toggle@ == default_toggle_spec(is_macos),
            h.quick_paste@ == default_quick_paste_spec(is_macos),
    {
        HotkeySettings {
            ptt: default_ptt_hotkey(is_macos),
            toggle: default_toggle_hotkey(is_macos),
            quick_paste: default_quick_paste_hotkey(is_macos),
        }
    }
}

fn copy_overrides(v: &Vec<AppStyleOverride>) -> (r: Vec<AppStyleOverride>)
    ensures
        overrides_view(r@) == overrides_view(v@),
{
    let mut r: Vec<AppStyleOverride> = Vec::new();
    for i in 0..v.len()
        invariant
            overrides_view(r@) == overrides_view(v@.take(i as int)),
    {
        let o = AppStyleOverride { app_id: v[i].app_id.clone(), style: v[i].style };
        r.push(o);
        assert(overrides_view(v@.take(i + 1)) == overrides_view(v@.take(i as int)).push(
            (v@[i as int].app_id@, v@[i as int].style),
        ));
        assert(overrides_view(r@) == overrides_view(r@.drop_last()).push((o.app_id@, o.style)));
    }
    assert(v@.take(v.len() as int) == v@);
    r
}

/// A copy of a substitution list.
pub fn copy_misheard(v: &Vec<MisheardReplacement>) -> (r: Vec<MisheardReplacement>)
    ensures
        misheard_view(r@) == misheard_view(v@),
{
    let mut r: Vec<MisheardReplacement> = Vec::new();
    for i in 0..v.len()
        invariant
            misheard_view(r@) == misheard_view(v@.take(i as int)),
    {
        let m = v[i].duplicate();
        r.push(m);
        assert(misheard_view(v@.take(i + 1)) == misheard_view(v@.take(i as int)).push(
            (v@[i as int].wrong@, v@[i as int].right@),
        ));
        assert(misheard_view(r@) == misheard_view(r@.drop_last()).push((m.wrong@, m.right@)));
    }
    assert(v@.take(v.len() as int) == v@);
    r
}

impl AppSettings {
    /// A copy with the same contents.
    pub fn copy(&self) -> (r: AppSettings)
        ensures
            r@ == self@,
    {
        AppSettings {
            schema_version: self.schema_version,
            style: self.style,
            privacy_mode: self.privacy_mode,
            whisper: WhisperSettings { model: self.whisper.model.clone() },
            llm: self.llm.copy(),
            embed: self.embed.copy(),
            hotkeys: self.hotkeys.copy(),
            vocabulary: self.vocabulary.clone(),
            per_app_styles: copy_overrides(&self.per_app_styles),
            commonly_misheard: copy_misheard(&self.commonly_misheard),
            cleanup_window_ocr: self.cleanup_window_ocr,
            auto_learn_corrections: self.auto_learn_corrections,
            audio_input_device: self.audio_input_device.clone(),
            prefer_builtin_mic_with_bluetooth: self.prefer_builtin_mic_with_bluetooth,
        }
    }
}

// ---------------------------------------------------------------------
// Defaults

pub open spec fn default_ptt_spec(is_macos: bool) -> Seq<char> {
    if is_macos {
        "Ctrl + Cmd"@
    } else {
        "Ctrl + Win"@
    }
}

pub open spec fn default_toggle_spec(is_macos: bool) -> Seq<char> {
    if is_macos {
        "Ctrl + Option + Space"@
    } else {
        "Ctrl + Alt + Space"@
    }
}

pub open spec fn default_quick_paste_spec(is_macos: bool) -> Seq<char> {
    if is_macos {
        "Option + Cmd + H"@
    } else {
        "Alt + Win + H"@
    }
}

pub fn default_ptt_hotkey(is_macos: bool) -> (s: String)
    ensures
        s@ == default_ptt_spec(is_macos),
{
    if is_macos {
        "Ctrl + Cmd".to_string()
    } else {
        "Ctrl + Win".to_string()
    }
}

pub fn default_toggle_hotkey(is_macos: bool) -> (s: String)
    ensures
        s@ == default_toggle_spec(is_macos),
{
    if is_macos {
        "Ctrl + Option + Space".to_string()
    } else {
        "Ctrl + Alt + Space".to_string()
    }
}

pub fn default_quick_paste_hotkey(is_macos: bool) -> (s: String)
    ensures
        s@ == default_quick_paste_spec(is_macos),
{
    if is_macos {
        "Option + Cmd + H".to_string()
    } else {
        "Alt + Win + H".to_string()
    }
}

/// The default cleanup endpoint: a local Ollama server.
pub fn default_llm_endpoint() -> (s: String)
    ensures
        s@ == "http://localhost:11434/v1/chat/completions"@,
{
    "http://localhost:11434/v1/chat/completions".to_string()
}

pub fn default_llm_model() -> (s: String)
    ensures
        s@ == "qwen2.5:7b"@,
{
    "qwen2.5:7b".to_string()
}

pub fn default_embed_endpoint() -> (s: String)
    ensures
        s@ == "http://localhost:11434/v1/embeddings"@,
{
    "http://localhost:11434/v1/embeddings".to_string()
}

pub fn default_embed_model() -> (s: String)
    ensures
        s@ == "nomic-embed-text"@,
{
    "nomic-embed-text".to_string()
}

/// Environment overrides read at start-up (`BOOTHRFLOW_*` variables).
/// `*_disabled` is whether the variable is set at all.
#[derive(Debug, Default)]
pub struct SettingsEnv {
    pub llm_disabled: bool,
    pub llm_endpoint: Option<String>,
    pub llm_model: Option<String>,
    pub llm_api_key: Option<String>,
    pub history_disabled: bool,
    pub embed_endpoint: Option<String>,
    pub embed_model: Option<String>,
    pub embed_api_key: Option<String>,
    pub whisper_prompt: Option<String>,
    pub whisper_model_file: Option<String>,
}

pub open spec fn or_default(o: Option<String>, d: Seq<char>) -> Seq<char> {
    match o {
        Some(s) => s@,
        None => d,
    }
}

fn string_or(o: &Option<String>, d: String) -> (r: String)
    ensures
        r@ == or_default(*o, d@),
{
    match o {
        Some(s) => s.clone(),
        None => d,
    }
}

/// The Whisper model to start with: the normalised file-name override,
/// else `tiny.en`.
pub fn default_whisper_model(file_override: &Option<String>) -> (s: String)
    ensures
        s@ == match file_override {
            Some(f) => normalize_spec(f@),
            None => "tiny.en"@,
        },
{
    match file_override {
        Some(f) => normalize_whisper_model(f.as_str()),
        None => "tiny.en".to_string(),
    }
}

/// The settings a fresh install starts with, given the environment
/// overrides and the platform.
pub fn default_app_settings(env: &SettingsEnv, is_macos: bool) -> (s: AppSettings)
    ensures
        s.schema_version == CURRENT_SCHEMA_VERSION,
        s.style == Style::Casual,
        !s.privacy_mode,
        s.whisper.model@ == match env.whisper_model_file {
            Some(f) => normalize_spec(f@),
            None => "tiny.en"@,
        },
        s.llm.enabled == !env.llm_disabled,
        s.llm.endpoint@ == or_default(env.llm_endpoint, "http://localhost:11434/v1/chat/completions"@),
        s.llm.model@ == or_default(env.llm_model, "qwen2.5:7b"@),
        opt_view(s.llm.api_key) == opt_view(env.llm_api_key),
        s.embed.enabled == !env.history_disabled,
        s.embed.endpoint@ == or_default(env.embed_endpoint, "http://localhost:11434/v1/embeddings"@),
        s.embed.model@ == or_default(env.embed_model, "nomic-embed-text"@),
        opt_view(s.embed.api_key) == opt_view(env.embed_api_key),
        s.hotkeys.ptt@ == default_ptt_spec(is_macos),
        s.hotkeys.toggle@ == default_toggle_spec(is_macos),
        s.hotkeys.quick_paste@ == default_quick_paste_spec(is_macos),
        s.vocabulary@ == or_default(env.whisper_prompt, Seq::empty()),
        s.per_app_styles@.len() == 0,
        s.commonly_misheard@.len() == 0,
        !s.cleanup_window_ocr,
        !s.auto_learn_corrections,
        s.audio_input_device@.len() == 0,
        s.prefer_builtin_mic_with_bluetooth,
{
    AppSettings {
        schema_version: CURRENT_SCHEMA_VERSION,
        style: Style::Casual,
        privacy_mode: false,
        whisper: WhisperSettings { model: default_whisper_model(&env.whisper_model_file) },
        llm: LlmSettings {
            enabled: !env.llm_disabled,
            endpoint: string_or(&env.llm_endpoint, default_llm_endpoint()),
            model: string_or(&env.llm_model, default_llm_model()),
            api_key: copy_opt_string(&env.llm_api_key),
        },
        embed: EmbedSettings {
            enabled: !env.history_disabled,
            endpoint: string_or(&env.embed_endpoint, default_embed_endpoint()),
            model: string_or(&env.embed_model, default_embed_model()),
            api_key: copy_opt_string(&env.embed_api_key),
        },
        hotkeys: HotkeySettings::default_for(is_macos),
        vocabulary: string_or(&env.whisper_prompt, String::new()),
        per_app_styles: Vec::new(),
        commonly_misheard: Vec::new(),
        cleanup_window_ocr: false,
        auto_learn_corrections: false,
        audio_input_device: String::new(),
        prefer_builtin_mic_with_bluetooth: true,
    }
}

// ---------------------------------------------------------------------
// Migration, patches, load and save

/// The document brought up to the current schema: the version raised to
/// [`CURRENT_SCHEMA_VERSION`] and the Whisper model name normalised.
pub open spec fn migrate_spec(s: AppSettingsView) -> AppSettingsView {
    AppSettingsView {
        schema_version: if s.schema_version < CURRENT_SCHEMA_VERSION {
            CURRENT_SCHEMA_VERSION
        } else {
            s.schema_version
        },
        whisper_model: normalize_spec(s.whisper_model),
        ..s
    }
}

pub fn migrate(settings: AppSettings) -> (r: AppSettings)
    ensures
        r@ == migrate_spec(settings@),
{
    let mut settings = settings;
    if settings.schema_version < CURRENT_SCHEMA_VERSION {
        settings.schema_version = CURRENT_SCHEMA_VERSION;
    }
    settings.whisper.model = normalize_whisper_model(settings.whisper.model.as_str());
    settings
}

pub open spec fn patch_field<T>(old: T, new: Option<T>) -> T {
    match new {
        Some(v) => v,
        None => old,
    }
}

/// The document after a patch: each `Some` field of the patch replaces
/// the document's field, each `None` keeps it.
pub open spec fn patched(s: AppSettingsView, p: SettingsPatch) -> AppSettingsView {
    AppSettingsView {
        style: patch_field(s.style, p.style),
        privacy_mode: patch_field(s.privacy_mode, p.privacy_mode),
        whisper_model: match p.whisper {
            Some(w) => w.model@,
            None => s.whisper_model,
        },
        llm: match p.llm {
            Some(l) => l@,
            None => s.llm,
        },
        embed: match p.embed {
            Some(e) => e@,
            None => s.embed,
        },
        hotkeys: match p.hotkeys {
            Some(h) => h@,
            None => s.hotkeys,
        },
        vocabulary: match p.vocabulary {
            Some(v) => v@,
            None => s.vocabulary,
        },
        per_app_styles: match p.per_app_styles {
            Some(v) => overrides_view(v@),
            None => s.per_app_styles,
        },
        commonly_misheard: match p.commonly_misheard {
            Some(v) => misheard_view(v@),
            None => s.commonly_misheard,
        },
        cleanup_window_ocr: patch_field(s.cleanup_window_ocr, p.cleanup_window_ocr),
        auto_learn_corrections: patch_field(s.auto_learn_corrections, p.auto_learn_corrections),
        audio_input_device: match p.audio_input_device {
            Some(v) => v@,
            None => s.audio_input_device,
        },
        prefer_builtin_mic_with_bluetooth: patch_field(
            s.prefer_builtin_mic_with_bluetooth,
            p.prefer_builtin_mic_with_bluetooth,
        ),
        ..s
    }
}

/// A patch that sets nothing leaves the document as it is.
pub proof fn empty_patch_changes_nothing(s: AppSettingsView, p: SettingsPatch)
    requires
        p.style is None,
        p.privacy_mode is None,
        p.whisper is None,
        p.llm is None,
        p.embed is None,
        p.hotkeys is None,
        p.vocabulary is None,
        p.per_app_styles is None,
        p.commonly_misheard is None,
        p.cleanup_window_ocr is None,
        p.auto_learn_corrections is None,
        p.audio_input_device is None,
        p.prefer_builtin_mic_with_bluetooth is None,
    ensures
        patched(s, p) == s,
{
}

/// Applying the same patch twice is the same as applying it once.
pub proof fn patch_is_idempotent(s: AppSettingsView, p: SettingsPatch)
    ensures
        patched(patched(s, p), p) == patched(s, p),
{
}

fn pick<T>(old: T, new: Option<T>) -> (r: T)
    ensures
        r == patch_field(old, new),
{
    match new {
        Some(v) => v,
        None => old,
    }
}

/// Apply `patch` to `settings`. Also returns whether the patch changed
/// the cleanup model, in which case the model override from the
/// environment no longer applies.
pub fn apply_patch(settings: AppSettings, patch: SettingsPatch) -> (r: (AppSettings, bool))
    ensures
        r.0@ == patched(settings@, patch),
        r.1 == (patch.llm matches Some(l) && l.model@ != settings.llm.model@),
{
    let changed = match &patch.llm {
        Some(l) => !string_eq(&l.model, &settings.llm.model),
        None => false,
    };
    let AppSettings {
        schema_version,
        style,
        privacy_mode,
        whisper,
        llm,
        embed,
        hotkeys,
        vocabulary,
        per_app_styles,
        commonly_misheard,
        cleanup_window_ocr,
        auto_learn_corrections,
        audio_input_device,
        prefer_builtin_mic_with_bluetooth,
    } = settings;
    let out = AppSettings {
        schema_version,
        style: pick(style, patch.style),
        privacy_mode: pick(privacy_mode, patch.privacy_mode),
        whisper: pick(whisper, patch.whisper),
        llm: pick(llm, patch.llm),
        embed: pick(embed, patch.embed),
        hotkeys: pick(hotkeys, patch.hotkeys),
        vocabulary: pick(vocabulary, patch.vocabulary),
        per_app_styles: pick(per_app_styles, patch.per_app_styles),
        commonly_misheard: pick(commonly_misheard, patch.commonly_misheard),
        cleanup_window_ocr: pick(cleanup_window_ocr, patch.cleanup_window_ocr),
        auto_learn_corrections: pick(auto_learn_corrections, patch.auto_learn_corrections),
        audio_input_device: pick(audio_input_device, patch.audio_input_device),
        prefer_builtin_mic_with_bluetooth: pick(
            prefer_builtin_mic_with_bluetooth,
            patch.prefer_builtin_mic_with_bluetooth,
        ),
    };
    (out, changed)
}

pub open spec fn settings_error_of(s: AppSettingsView) -> Option<Seq<char>> {
    settings_error(s.whisper_model, s.hotkeys.0, s.hotkeys.1, s.hotkeys.2)
}

/// The update step of the settings store: apply the patch and validate
/// the result. The caller persists the returned document and removes the
/// cleanup-model environment override when the flag says so.
pub fn prepare_update(settings: AppSettings, patch: SettingsPatch) -> (r: Result<(AppSettings, bool), BoothError>)
    ensures
        match settings_error_of(patched(settings@, patch)) {
            None => r matches Ok((s, changed)) && s@ == patched(settings@, patch) && changed == (
            patch.llm matches Some(l) && l.model@ != settings.llm.model@),
            Some(m) => r matches Err(BoothError::Internal(x)) && x@ == m,
        },
{
    let (settings, changed) = apply_patch(settings, patch);
    match validate_settings(&settings) {
        Ok(()) => Ok((settings, changed)),
        Err(e) => Err(e),
    }
}

/// The load step of the settings store: keys found in the keychain take
/// precedence over the document's, then the document is migrated and
/// validated.
pub fn finish_load(settings: AppSettings, llm_key: Option<String>, embed_key: Option<String>) -> (r: Result<AppSettings, BoothError>)
    ensures
        ({
            let keyed = AppSettingsView {
                llm: EndpointView {
                    api_key: if llm_key is Some { opt_view(llm_key) } else { settings@.llm.api_key },
                    ..settings@.llm
                },
                embed: EndpointView {
                    api_key: if embed_key is Some { opt_view(embed_key) } else { settings@.embed.api_key },
                    ..settings@.embed
                },
                ..settings@
            };
            let m = migrate_spec(keyed);
            match settings_error_of(m) {
                None => r matches Ok(s) && s@ == m,
                Some(msg) => r matches Err(BoothError::Internal(x)) && x@ == msg,
            }
        }),
{
    let mut settings = settings;
    if llm_key.is_some() {
        settings.llm.api_key = llm_key;
    }
    if embed_key.is_some() {
        settings.embed.api_key = embed_key;
    }
    let settings = migrate(settings);
    match validate_settings(&settings) {
        Ok(()) => Ok(settings),
        Err(e) => Err(e),
    }
}

/// The import step: migrate and validate a parsed document.
pub fn prepare_import(settings: AppSettings) -> (r: Result<AppSettings, BoothError>)
    ensures
        match settings_error_of(migrate_spec(settings@)) {
            None => r matches Ok(s) && s@ == migrate_spec(settings@),
            Some(m) => r matches Err(BoothError::Internal(x)) && x@ == m,
        },
{
    let settings = migrate(settings);
    match validate_settings(&settings) {
        Ok(()) => Ok(settings),
        Err(e) => Err(e),
    }
}

/// The endpoint blocks as written to the settings file: API keys left out
/// when the keychain holds them (`strip`).
pub fn blocks_for_store(settings: &AppSettings, strip: bool) -> (r: (LlmSettings, EmbedSettings))
    ensures
        r.0@ == (EndpointView {
            api_key: if strip { None } else { settings.llm@.api_key },
            ..settings.llm@
        }),
        r.1@ == (EndpointView {
            api_key: if strip { None } else { settings.embed@.api_key },
            ..settings.embed@
        }),
{
    let mut llm = settings.llm.copy();
    let mut embed = settings.embed.copy();
    if strip {
        llm.api_key = None;
        embed.api_key = None;
    }
    (llm, embed)
}

// ---------------------------------------------------------------------
// Options for the settings panel

fn option_of(m: &WhisperModel) -> (o: ModelOption)
    ensures
        o.value@ == m.value@,
        o.label@ == m.label@,
        o.detail@ == m.detail@,
        opt_view(o.file) == Some(m.file@),
        o.available == m.available,
{
    ModelOption {
        value: m.value.to_string(),
        label: m.label.to_string(),
        detail: m.detail.to_string(),
        file: Some(m.file.to_string()),
        available: m.available,
    }
}

pub ghost struct ModelOptionView {
    pub value: Seq<char>,
    pub label: Seq<char>,
    pub detail: Seq<char>,
    pub file: Option<Seq<char>>,
    pub available: bool,
}

impl View for ModelOption {
    type V = ModelOptionView;

    open spec fn view(&self) -> ModelOptionView {
        ModelOptionView {
            value: self.value@,
            label: self.label@,
            detail: self.detail@,
            file: opt_view(self.file),
            available: self.available,
        }
    }
}

pub open spec fn option_views(v: Seq<ModelOption>) -> Seq<ModelOptionView> {
    v.map_values(|o: ModelOption| o@)
}

pub open spec fn table_option(m: WhisperModelView) -> ModelOptionView {
    ModelOptionView {
        value: m.value,
        label: m.label,
        detail: m.detail,
        file: Some(m.file),
        available: m.available,
    }
}

pub open spec fn plain_option(value: &str, label: &str, detail: &str) -> ModelOptionView {
    ModelOptionView { value: value@, label: label@, detail: detail@, file: None, available: true }
}

fn plain(value: &str, label: &str, detail: &str) -> (o: ModelOption)
    ensures
        o@ == plain_option(value, label, detail),
{
    ModelOption {
        value: value.to_string(),
        label: label.to_string(),
        detail: detail.to_string(),
        file: None,
        available: true,
    }
}

/// The choices of the settings panel: every Whisper model of the table,
/// the two Qwen cleanup models and the embedding model.
pub fn settings_options() -> (o: SettingsOptions)
    ensures
        option_views(o.whisper_models@) == model_table().map_values(|m: WhisperModelView| table_option(m)),
        option_views(o.llm_models@) == seq![
            plain_option("qwen2.5:7b", "Qwen 2.5 7B Instruct (~5GB, ~80 tok/s on M4)", "Higher-quality local cleanup default."),
            plain_option("qwen2.5:1.5b", "Qwen 2.5 1.5B Instruct (~1GB, faster)", "Lower-latency fallback for slower machines."),
        ],
        option_views(o.embed_models@) == seq![
            plain_option("nomic-embed-text", "nomic-embed-text v1.5 (137M, 274MB)", "Default local embedding model for history search."),
        ],
{
    let models = whisper_models();
    let mut whisper: Vec<ModelOption> = Vec::new();
    let ghost table = model_table();
    for i in 0..models.len()
        invariant
            model_views(models@) == table,
            table == model_table(),
            option_views(whisper@) == table.take(i as int).map_values(|m: WhisperModelView| table_option(m)),
    {
        let o = option_of(&models[i]);
        assert(table[i as int] == models@[i as int]@);
        whisper.push(o);
        assert(option_views(whisper@) == option_views(whisper@.drop_last()).push(o@));
        assert(table.take(i + 1).map_values(|m: WhisperModelView| table_option(m)) == table.take(
            i as int,
        ).map_values(|m: WhisperModelView| table_option(m)).push(table_option(table[i as int])));
    }
    assert(table.take(models.len() as int) == table);
    let llm = vec![
        plain("qwen2.5:7b", "Qwen 2.5 7B Instruct (~5GB, ~80 tok/s on M4)", "Higher-quality local cleanup default."),
        plain("qwen2.5:1.5b", "Qwen 2.5 1.5B Instruct (~1GB, faster)", "Lower-latency fallback for slower machines."),
    ];
    let embed = vec![
        plain("nomic-embed-text", "nomic-embed-text v1.5 (137M, 274MB)", "Default local embedding model for history search."),
    ];
    SettingsOptions { whisper_models: whisper, llm_models: llm, embed_models: embed }
}

// ---------------------------------------------------------------------
// Runtime settings

/// The settings the running app works from. The app keeps one of these
/// for the whole process; each accessor below reads or replaces it.
pub struct RuntimeSettings {
    pub settings: AppSettings,
}

impl RuntimeSettings {
    pub fn new(settings: AppSettings) -> (r: RuntimeSettings)
        ensures
            r.settings@ == settings@,
    {
        RuntimeSettings { settings }
    }
}

/// A copy of the current settings.
pub fn current_app_settings(rt: &RuntimeSettings) -> (s: AppSettings)
    ensures
        s@ == rt.settings@,
{
    rt.settings.copy()
}

/// Make `settings` the current settings.
pub fn apply_runtime_settings(rt: &mut RuntimeSettings, settings: &AppSettings)
    ensures
        final(rt).settings@ == settings@,
{
    set_current_style(rt, settings.style);
    rt.settings = settings.copy();
}

pub fn current_style(rt: &RuntimeSettings) -> (s: Style)
    ensures
        s == rt.settings.style,
{
    rt.settings.style
}

/// Change only the current style.
pub fn set_current_style(rt: &mut RuntimeSettings, style: Style)
    ensures
        final(rt).settings@ == (AppSettingsView { style, ..old(rt).settings@ }),
{
    rt.settings.style = style;
}

pub fn privacy_mode_enabled(rt: &RuntimeSettings) -> (b: bool)
    ensures
        b == rt.settings.privacy_mode,
{
    rt.settings.privacy_mode
}

pub fn current_hotkeys(rt: &RuntimeSettings) -> (h: HotkeySettings)
    ensures
        h@ == rt.settings.hotkeys@,
{
    rt.settings.hotkeys.copy()
}

/// The model file of the current Whisper model.
pub fn current_whisper_model_file(rt: &RuntimeSettings) -> (f: String)
    ensures
        f@ == match model_for_spec(rt.settings.whisper.model@) {
            Some(m) => m.file,
            None => "ggml-tiny.en.bin"@,
        },
{
    whisper_model_file(rt.settings.whisper.model.as_str()).to_string()
}

/// The Whisper initial prompt: the vocabulary when it is not blank; else
/// the `BOOTHRFLOW_WHISPER_PROMPT` value (`env_prompt`), where an empty
/// value means no prompt; else `default_prompt`.
pub fn current_whisper_prompt(rt: &RuntimeSettings, env_prompt: Option<String>, default_prompt: &str) -> (r: Option<String>)
    ensures
        trim_spec(rt.settings.vocabulary@).len() > 0 ==> opt_view(r) == Some(rt.settings.vocabulary@),
        trim_spec(rt.settings.vocabulary@).len() == 0 ==> opt_view(r) == match env_prompt {
            Some(s) => if s@.len() == 0 { None } else { Some(s@) },
            None => Some(default_prompt@),
        },
{
    let v = str_chars(rt.settings.vocabulary.as_str());
    let t = trim_chars(&v);
    if t.len() > 0 {
        Some(rt.settings.vocabulary.clone())
    } else {
        match env_prompt {
            Some(s) => if s.as_str().is_empty() {
                None
            } else {
                Some(s)
            },
            None => Some(default_prompt.to_string()),
        }
    }
}

} // verus!
