//! The dictation session's decisions: the vocabulary handed to the
//! cleanup prompt, which learned corrections are kept, how a hotkey event
//! is answered, when the speech model is reloaded, and what the cleanup
//! pass does. The loop that captures audio, calls the engines and pastes
//! is the caller's; it asks these functions what to do next.
use vstd::prelude::*;
use crate::context::AppContext;
use crate::error::BoothError;
use crate::hotkey::HotkeyEvent;
use crate::learning::seq_eq_chars;
use crate::llm::{should_skip_llm, should_skip_spec, CleanupOutput, CleanupRequest};
use crate::settings::{copy_misheard, misheard_view, AppSettings, MisheardReplacement, Style};
use crate::text::{
    chars_to_string, lower_chars, lower_seq, split_on, split_on_char, str_chars, trim_chars,
    trim_spec, views,
};

verus! {

// ---------------------------------------------------------------------
// Vocabulary

/// Commas, newlines and semicolons separate vocabulary terms.
pub open spec fn is_vocab_sep(c: char) -> bool {
    c == ',' || c == '\n' || c == ';'
}

/// The pieces of `s` between separators (`str::split` on the three
/// separator characters).
pub open spec fn vocab_pieces(s: Seq<char>) -> Seq<Seq<char>> {
    split_on(s.map_values(|c: char| if is_vocab_sep(c) { ',' } else { c }), ',')
}

/// `s` with every element after its first occurrence removed.
pub open spec fn dedupe(s: Seq<Seq<char>>) -> Seq<Seq<char>>
    decreases s.len(),
{
    if s.len() == 0 {
        s
    } else if dedupe(s.drop_last()).contains(s.last()) {
        dedupe(s.drop_last())
    } else {
        dedupe(s.drop_last()).push(s.last())
    }
}

/// Trimmed, non-empty terms.
pub open spec fn trimmed_nonempty(parts: Seq<Seq<char>>) -> Seq<Seq<char>>
    decreases parts.len(),
{
    if parts.len() == 0 {
        parts
    } else if trim_spec(parts.last()).len() == 0 {
        trimmed_nonempty(parts.drop_last())
    } else {
        trimmed_nonempty(parts.drop_last()).push(trim_spec(parts.last()))
    }
}

/// The distinct vocabulary terms, trimmed, blanks dropped, in order of
/// first appearance (case matters: proper-noun casing is the point).
pub open spec fn vocabulary_spec(text: Seq<char>) -> Seq<Seq<char>> {
    dedupe(trimmed_nonempty(vocab_pieces(text)))
}

pub open spec fn no_duplicates(s: Seq<Seq<char>>) -> bool {
    forall|i: int, j: int| 0 <= i < j < s.len() ==> s[i] != s[j]
}

proof fn lemma_dedupe_props(s: Seq<Seq<char>>)
    ensures
        no_duplicates(dedupe(s)),
        forall|x: Seq<char>| dedupe(s).contains(x) <==> s.contains(x),
    decreases s.len(),
{
    if s.len() > 0 {
        lemma_dedupe_props(s.drop_last());
        let d = dedupe(s.drop_last());
        assert forall|x: Seq<char>| s.contains(x) <==> (s.drop_last().contains(x) || x == s.last()) by {
            if s.contains(x) {
                let k = choose|k: int| 0 <= k < s.len() && s[k] == x;
                if k < s.len() - 1 {
                    assert(s.drop_last()[k] == x);
                }
            }
            if s.drop_last().contains(x) {
                let k = choose|k: int| 0 <= k < s.drop_last().len() && s.drop_last()[k] == x;
                assert(s[k] == x);
            }
            if x == s.last() {
                assert(s[s.len() - 1] == x);
            }
        }
        if !d.contains(s.last()) {
            let e = d.push(s.last());
            assert forall|i: int, j: int| 0 <= i < j < e.len() implies e[i] != e[j] by {
                if j == e.len() - 1 {
                    assert(e[i] == d[i]);
                    assert(d.contains(d[i]));
                }
            }
            assert forall|x: Seq<char>| e.contains(x) <==> d.contains(x) || x == s.last() by {
                if e.contains(x) {
                    let k = choose|k: int| 0 <= k < e.len() && e[k] == x;
                    if k < d.len() {
                        assert(d[k] == x);
                    }
                }
                if d.contains(x) {
                    let k = choose|k: int| 0 <= k < d.len() && d[k] == x;
                    assert(e[k] == x);
                }
                if x == s.last() {
                    assert(e[e.len() - 1] == x);
                }
            }
        }
    }
}

proof fn lemma_trimmed_nonempty_terms(parts: Seq<Seq<char>>)
    ensures
        forall|i: int| 0 <= i < trimmed_nonempty(parts).len() ==> #[trigger] trimmed_nonempty(parts)[i].len() > 0
            && trim_spec(trimmed_nonempty(parts)[i]) == trimmed_nonempty(parts)[i],
    decreases parts.len(),
{
    if parts.len() > 0 {
        lemma_trimmed_nonempty_terms(parts.drop_last());
        crate::text::trim_is_idempotent(parts.last());
        let prev = trimmed_nonempty(parts.drop_last());
        let cur = trimmed_nonempty(parts);
        assert forall|i: int| 0 <= i < cur.len() implies #[trigger] cur[i].len() > 0 && trim_spec(cur[i]) == cur[i] by {
            if i < prev.len() {
                assert(cur[i] == prev[i]);
            }
        }
    }
}

/// Every vocabulary term is non-empty, carries no surrounding whitespace,
/// and appears once.
pub proof fn vocabulary_terms_are_clean(text: Seq<char>)
    ensures
        no_duplicates(vocabulary_spec(text)),
        forall|i: int| 0 <= i < vocabulary_spec(text).len() ==> #[trigger] vocabulary_spec(text)[i].len() > 0
            && trim_spec(vocabulary_spec(text)[i]) == vocabulary_spec(text)[i],
{
    let t = trimmed_nonempty(vocab_pieces(text));
    lemma_dedupe_props(t);
    lemma_trimmed_nonempty_terms(vocab_pieces(text));
    assert forall|i: int| 0 <= i < vocabulary_spec(text).len() implies #[trigger] vocabulary_spec(text)[i].len() > 0
        && trim_spec(vocabulary_spec(text)[i]) == vocabulary_spec(text)[i] by {
        let x = vocabulary_spec(text)[i];
        assert(dedupe(t).contains(x));
        assert(t.contains(x));
        let k = choose|k: int| 0 <= k < t.len() && t[k] == x;
    }
}

fn vocab_normalized(v: &Vec<char>) -> (r: Vec<char>)
    ensures
        r@ == v@.map_values(|c: char| if is_vocab_sep(c) { ',' } else { c }),
{
    let mut r: Vec<char> = Vec::new();
    for i in 0..v.len()
        invariant
            r@ == v@.take(i as int).map_values(|c: char| if is_vocab_sep(c) { ',' } else { c }),
    {
        let c = v[i];
        let d = if c == ',' || c == '\n' || c == ';' { ',' } else { c };
        r.push(d);
        assert(v@.take(i + 1).map_values(|c: char| if is_vocab_sep(c) { ',' } else { c })
            == v@.take(i as int).map_values(|c: char| if is_vocab_sep(c) { ',' } else { c }).push(d));
    }
    assert(v@.take(v.len() as int) == v@);
    r
}

fn contains_term(v: &Vec<Vec<char>>, t: &Vec<char>) -> (b: bool)
    ensures
        b == views(v@).contains(t@),
{
    for i in 0..v.len()
        invariant
            forall|k: int| 0 <= k < i ==> views(v@)[k] != t@,
    {
        if seq_eq_chars(&v[i], t) {
            assert(views(v@)[i as int] == t@);
            return true;
        }
    }
    false
}

fn to_strings(v: &Vec<Vec<char>>) -> (r: Vec<String>)
    ensures
        r@.map_values(|s: String| s@) == views(v@),
{
    let mut r: Vec<String> = Vec::new();
    for i in 0..v.len()
        invariant
            r@.map_values(|s: String| s@) == views(v@.take(i as int)),
    {
        let s = chars_to_string(&v[i]);
        r.push(s);
        assert(views(v@.take(i + 1)) == views(v@.take(i as int)).push(v@[i as int]@));
        assert(r@.map_values(|s: String| s@) == r@.drop_last().map_values(|s: String| s@).push(s@));
    }
    assert(v@.take(v.len() as int) == v@);
    r
}

/// The user's free-text vocabulary as a list of distinct terms: split on
/// commas, newlines and semicolons, trimmed, blanks dropped, repeats
/// dropped (case-sensitively), first appearance first.
pub fn parse_vocabulary(text: &str) -> (r: Vec<String>)
    ensures
        r@.map_values(|s: String| s@) == vocabulary_spec(text@),
        no_duplicates(r@.map_values(|s: String| s@)),
{
    let v = str_chars(text);
    let n = vocab_normalized(&v);
    let pieces = split_on_char(&n, ',');
    let ghost ps = views(pieces@);
    let mut out: Vec<Vec<char>> = Vec::new();
    for i in 0..pieces.len()
        invariant
            ps == views(pieces@),
            ps == vocab_pieces(text@),
            views(out@) == dedupe(trimmed_nonempty(ps.take(i as int))),
    {
        let t = trim_chars(&pieces[i]);
        assert(ps.take(i + 1).drop_last() == ps.take(i as int));
        assert(ps[i as int] == pieces@[i as int]@);
        let ghost tn = trimmed_nonempty(ps.take(i as int));
        if t.len() > 0 {
            assert(trimmed_nonempty(ps.take(i + 1)) == tn.push(t@));
            assert(tn.push(t@).drop_last() == tn);
            if !contains_term(&out, &t) {
                out.push(t);
                assert(views(out@) == views(out@.drop_last()).push(out@.last()@));
            }
        } else {
            assert(trimmed_nonempty(ps.take(i + 1)) == tn);
        }
    }
    assert(ps.take(pieces.len() as int) == ps);
    proof {
        lemma_dedupe_props(trimmed_nonempty(ps));
    }
    to_strings(&out)
}

// ---------------------------------------------------------------------
// Learned corrections

/// What a correction observation starts from: the text that was pasted.
#[derive(Debug)]
pub struct PasteSnapshot {
    pub pasted_text: String,
}

/// How long after a paste the focused field is sampled: long enough to
/// catch a quick fix, short enough that the user is likely done.
pub const SETTLING_MS: u64 = 8000;

/// Most learned corrections kept; older ones are dropped first.
pub const MAX_LEARNED_CORRECTIONS: usize = 50;

/// ASCII case-insensitive equality (`str::eq_ignore_ascii_case`).
pub open spec fn eq_ignore_case(a: Seq<char>, b: Seq<char>) -> bool {
    lower_seq(a) == lower_seq(b)
}

/// Is `word` one of the user's vocabulary terms (trimmed, compared
/// without regard to ASCII case)?
pub open spec fn in_vocabulary(vocabulary: Seq<char>, word: Seq<char>) -> bool {
    exists|i: int| 0 <= i < vocab_pieces(vocabulary).len() && #[trigger] eq_ignore_case(
        trim_spec(vocab_pieces(vocabulary)[i]),
        word,
    )
}

/// Has this correction been learned already (same wrong word up to ASCII
/// case, same replacement)?
pub open spec fn already_learned(learned: Seq<(Seq<char>, Seq<char>)>, pair: (Seq<char>, Seq<char>)) -> bool {
    exists|i: int| 0 <= i < learned.len() && #[trigger] eq_ignore_case(learned[i].0, pair.0)
        && learned[i].1 == pair.1
}

/// `learned` with `pair` appended, keeping only the newest
/// [`MAX_LEARNED_CORRECTIONS`].
pub open spec fn append_capped(learned: Seq<(Seq<char>, Seq<char>)>, pair: (Seq<char>, Seq<char>)) -> Seq<(Seq<char>, Seq<char>)> {
    let next = learned.push(pair);
    if next.len() > MAX_LEARNED_CORRECTIONS {
        next.subrange(next.len() - MAX_LEARNED_CORRECTIONS, next.len() as int)
    } else {
        next
    }
}

/// The new list of learned corrections after detecting `pair`, or `None`
/// when nothing changes: the wrong word is one of the user's preferred
/// spellings, or the correction is already known.
pub open spec fn learn_spec(
    vocabulary: Seq<char>,
    learned: Seq<(Seq<char>, Seq<char>)>,
    pair: (Seq<char>, Seq<char>),
) -> Option<Seq<(Seq<char>, Seq<char>)>> {
    if in_vocabulary(vocabulary, pair.0) || already_learned(learned, pair) {
        None
    } else {
        Some(append_capped(learned, pair))
    }
}

fn ascii_eq_ignore_case(a: &Vec<char>, b: &Vec<char>) -> (r: bool)
    ensures
        r == eq_ignore_case(a@, b@),
{
    let la = lower_chars(a);
    let lb = lower_chars(b);
    seq_eq_chars(&la, &lb)
}

fn vocabulary_has(vocabulary: &str, word: &Vec<char>) -> (b: bool)
    ensures
        b == in_vocabulary(vocabulary@, word@),
{
    let v = str_chars(vocabulary);
    let n = vocab_normalized(&v);
    let pieces = split_on_char(&n, ',');
    let ghost ps = views(pieces@);
    assert(ps == vocab_pieces(vocabulary@));
    for i in 0..pieces.len()
        invariant
            ps == views(pieces@),
            ps == vocab_pieces(vocabulary@),
            forall|k: int| 0 <= k < i ==> !#[trigger] eq_ignore_case(trim_spec(ps[k]), word@),
    {
        let t = trim_chars(&pieces[i]);
        assert(ps[i as int] == pieces@[i as int]@);
        if ascii_eq_ignore_case(&t, word) {
            return true;
        }
    }
    false
}

fn learned_has(learned: &Vec<MisheardReplacement>, pair: &MisheardReplacement) -> (b: bool)
    ensures
        b == already_learned(misheard_view(learned@), (pair.wrong@, pair.right@)),
{
    let ghost lv = misheard_view(learned@);
    let w = str_chars(pair.wrong.as_str());
    let r = str_chars(pair.right.as_str());
    for i in 0..learned.len()
        invariant
            lv == misheard_view(learned@),
            w@ == pair.wrong@,
            r@ == pair.right@,
            forall|k: int| 0 <= k < i ==> !(#[trigger] eq_ignore_case(lv[k].0, w@) && lv[k].1 == r@),
    {
        let mw = str_chars(learned[i].wrong.as_str());
        let mr = str_chars(learned[i].right.as_str());
        assert(lv[i as int] == (learned@[i as int].wrong@, learned@[i as int].right@));
        if ascii_eq_ignore_case(&mw, &w) && seq_eq_chars(&mr, &r) {
            let ghost pv = (pair.wrong@, pair.right@);
            assert(eq_ignore_case(lv[i as int].0, pv.0) && lv[i as int].1 == pv.1);
            assert(already_learned(lv, pv));
            return true;
        }
    }
    false
}

/// The learned corrections after a detected correction `pair`: `None`
/// when the pair is already covered, otherwise the list with the pair
/// appended and the oldest entries dropped beyond the cap.
pub fn learned_corrections_update(settings: &AppSettings, pair: &MisheardReplacement) -> (r: Option<Vec<MisheardReplacement>>)
    ensures
        match r {
            Some(v) => learn_spec(settings.vocabulary@, misheard_view(settings.commonly_misheard@), (pair.wrong@, pair.right@))
                == Some(misheard_view(v@)),
            None => learn_spec(settings.vocabulary@, misheard_view(settings.commonly_misheard@), (pair.wrong@, pair.right@))
                is None,
        },
{
    let w = str_chars(pair.wrong.as_str());
    if vocabulary_has(settings.vocabulary.as_str(), &w) {
        return None;
    }
    if learned_has(&settings.commonly_misheard, pair) {
        return None;
    }
    let mut next = copy_misheard(&settings.commonly_misheard);
    let p = pair.duplicate();
    next.push(p);
    let ghost pushed = misheard_view(next@);
    assert(pushed == misheard_view(settings.commonly_misheard@).push((pair.wrong@, pair.right@))) by {
        assert(misheard_view(next@) == misheard_view(next@.drop_last()).push((p.wrong@, p.right@)));
    }
    if next.len() > MAX_LEARNED_CORRECTIONS {
        let drop = next.len() - MAX_LEARNED_CORRECTIONS;
        let mut kept: Vec<MisheardReplacement> = Vec::new();
        let mut i = drop;
        while i < next.len()
            invariant
                drop <= i <= next.len(),
                drop == next.len() - MAX_LEARNED_CORRECTIONS,
                pushed == misheard_view(next@),
                misheard_view(kept@) == pushed.subrange(drop as int, i as int),
            decreases next.len() - i,
        {
            let m = next[i].duplicate();
            kept.push(m);
            assert(misheard_view(kept@) == misheard_view(kept@.drop_last()).push((m.wrong@, m.right@)));
            assert(pushed.subrange(drop as int, i + 1) == pushed.subrange(drop as int, i as int).push(pushed[i as int]));
            i = i + 1;
        }
        Some(kept)
    } else {
        Some(next)
    }
}

/// After an update the list never exceeds the cap, ends with the new
/// correction, and what precedes it is the newest part of the old list.
pub proof fn learned_list_is_capped_fifo(
    vocabulary: Seq<char>,
    learned: Seq<(Seq<char>, Seq<char>)>,
    pair: (Seq<char>, Seq<char>),
)
    requires
        learn_spec(vocabulary, learned, pair) is Some,
    ensures
        ({
            let next = learn_spec(vocabulary, learned, pair)->0;
            &&& next.len() <= MAX_LEARNED_CORRECTIONS
            &&& next.len() == if learned.len() + 1 > MAX_LEARNED_CORRECTIONS { MAX_LEARNED_CORRECTIONS as int } else { learned.len() + 1int }
            &&& next.last() == pair
            &&& next.drop_last() == learned.subrange(learned.len() + 1 - next.len(), learned.len() as int)
        }),
{
    let next = learn_spec(vocabulary, learned, pair)->0;
    let pushed = learned.push(pair);
    if pushed.len() > MAX_LEARNED_CORRECTIONS {
        assert(next.drop_last() == learned.subrange(learned.len() + 1 - next.len(), learned.len() as int));
    } else {
        assert(learned.subrange(0, learned.len() as int) == learned);
    }
}

/// A correction that was just learned is not learned a second time.
pub proof fn learning_is_idempotent(
    vocabulary: Seq<char>,
    learned: Seq<(Seq<char>, Seq<char>)>,
    pair: (Seq<char>, Seq<char>),
)
    requires
        learn_spec(vocabulary, learned, pair) is Some,
    ensures
        learn_spec(vocabulary, learn_spec(vocabulary, learned, pair)->0, pair) is None,
{
    let next = learn_spec(vocabulary, learned, pair)->0;
    assert(next[next.len() - 1] == pair);
    assert(eq_ignore_case(next[next.len() - 1].0, pair.0));
}

// ---------------------------------------------------------------------
// The session loop's decisions

/// What an idle session does with a hotkey event.
#[derive(Debug, Clone, Copy, PartialEq, Eq, Structural)]
pub enum IdleAction {
    /// Remember the focused window and show the quick-paste palette.
    OpenQuickPaste,
    /// A start chord while paused: ignored.
    IgnoreWhilePaused,
    /// Start capturing; `toggle` tells a hands-free session from a held one.
    StartDictation { toggle: bool },
    /// A release with no dictation running: just hide the overlay.
    HideOverlay,
}

pub fn on_idle_event(event: HotkeyEvent, paused: bool) -> (a: IdleAction)
    ensures
        a == match event {
            HotkeyEvent::QuickPasteOpen => IdleAction::OpenQuickPaste,
            HotkeyEvent::Release => IdleAction::HideOverlay,
            HotkeyEvent::Press => if paused {
                IdleAction::IgnoreWhilePaused
            } else {
                IdleAction::StartDictation { toggle: false }
            },
            HotkeyEvent::ToggleDictation => if paused {
                IdleAction::IgnoreWhilePaused
            } else {
                IdleAction::StartDictation { toggle: true }
            },
        },
{
    match event {
        HotkeyEvent::QuickPasteOpen => IdleAction::OpenQuickPaste,
        HotkeyEvent::Release => IdleAction::HideOverlay,
        HotkeyEvent::Press => if paused {
            IdleAction::IgnoreWhilePaused
        } else {
            IdleAction::StartDictation { toggle: false }
        },
        HotkeyEvent::ToggleDictation => if paused {
            IdleAction::IgnoreWhilePaused
        } else {
            IdleAction::StartDictation { toggle: true }
        },
    }
}

/// During a capture, a release or a toggle chord ends it (whichever way
/// the session started); a repeated press and the palette chord do not.
pub fn ends_capture(event: HotkeyEvent) -> (b: bool)
    ensures
        b == (event == HotkeyEvent::Release || event == HotkeyEvent::ToggleDictation),
{
    match event {
        HotkeyEvent::Release | HotkeyEvent::ToggleDictation => true,
        HotkeyEvent::Press | HotkeyEvent::QuickPasteOpen => false,
    }
}

/// The model value that selects the Parakeet engine.
pub const PARAKEET_MODEL: &'static str = "parakeet-tdt-0.6b-v3";

/// Which speech engine a model value selects.
#[derive(Debug, Clone, Copy, PartialEq, Eq, Structural)]
pub enum SttKind {
    Whisper,
    Parakeet,
}

pub fn stt_kind(model_value: &str) -> (k: SttKind)
    ensures
        k == (if model_value@ == PARAKEET_MODEL@ { SttKind::Parakeet } else { SttKind::Whisper }),
{
    let v = str_chars(model_value);
    if crate::settings::eq_lit(&v, PARAKEET_MODEL) {
        SttKind::Parakeet
    } else {
        SttKind::Whisper
    }
}

/// The speech model is (re)loaded unless one is loaded from exactly the
/// configured file.
pub fn stt_reload_needed(loaded: bool, loaded_file: Option<&str>, model_file: &str) -> (b: bool)
    ensures
        b == !(loaded && (loaded_file matches Some(f) && f@ == model_file@)),
{
    if !loaded {
        return true;
    }
    match loaded_file {
        Some(f) => {
            let a = str_chars(f);
            let m = str_chars(model_file);
            !seq_eq_chars(&a, &m)
        },
        None => true,
    }
}

/// Window OCR runs only when enabled and privacy mode is off.
pub fn should_capture_ocr(privacy_mode: bool, window_ocr_enabled: bool) -> (b: bool)
    ensures
        b == (!privacy_mode && window_ocr_enabled),
{
    !privacy_mode && window_ocr_enabled
}

/// A paste is watched for corrections when it succeeded with some text,
/// privacy mode is off and auto-learning is on.
pub fn should_observe_paste(paste_succeeded: bool, formatted: &str, privacy_mode: bool, auto_learn: bool) -> (b: bool)
    ensures
        b == (paste_succeeded && formatted@.len() > 0 && !privacy_mode && auto_learn),
{
    paste_succeeded && !formatted.is_empty() && !privacy_mode && auto_learn
}

/// After the settling pause the observation goes on only if auto-learning
/// is still on and privacy mode is still off.
pub fn still_learning(auto_learn: bool, privacy_mode: bool) -> (b: bool)
    ensures
        b == (auto_learn && !privacy_mode),
{
    auto_learn && !privacy_mode
}

/// The cleaned text is announced separately only when it differs from the
/// raw transcript.
pub fn formatted_differs(raw: &str, formatted: &str) -> (b: bool)
    ensures
        b == (raw@ != formatted@),
{
    let r = str_chars(raw);
    let f = str_chars(formatted);
    !seq_eq_chars(&r, &f)
}

/// The cleanup client as built from the settings.
#[derive(Debug)]
pub enum LlmClientState {
    /// Cleanup is disabled in the settings.
    Disabled,
    /// The client could not be built.
    InitFailed(BoothError),
    /// The client is ready.
    Ready,
}

/// What the cleanup pass does for one transcript.
#[derive(Debug)]
pub enum CleanupPlan {
    /// Paste the raw transcript.
    Passthrough,
    /// Paste the raw transcript and report why cleanup was unavailable.
    PassthroughWithError(String),
    /// Run the cleanup.
    Run,
}

/// Raw style and privacy mode skip cleanup outright; then a disabled
/// client skips it, a client that failed to build skips it with its
/// error, and a short transcript (or disabled LLM) skips it; otherwise
/// it runs.
pub fn plan_cleanup(style: Style, privacy_mode: bool, client: &LlmClientState, raw: &str, llm_enabled: bool) -> (p: CleanupPlan)
    ensures
        (style == Style::Raw || privacy_mode) ==> p is Passthrough,
        !(style == Style::Raw || privacy_mode) ==> match client {
            LlmClientState::Disabled => p is Passthrough,
            LlmClientState::InitFailed(e) => p matches CleanupPlan::PassthroughWithError(m) && m@ == e.message_spec(),
            LlmClientState::Ready => if should_skip_spec(raw@, llm_enabled) {
                p is Passthrough
            } else {
                p is Run
            },
        },
{
    if style == Style::Raw || privacy_mode {
        return CleanupPlan::Passthrough;
    }
    match client {
        LlmClientState::Disabled => CleanupPlan::Passthrough,
        LlmClientState::InitFailed(e) => CleanupPlan::PassthroughWithError(e.message()),
        LlmClientState::Ready => if should_skip_llm(raw, llm_enabled) {
            CleanupPlan::Passthrough
        } else {
            CleanupPlan::Run
        },
    }
}

/// The cleanup pass's result as the session reports it. `error` is set
/// only when cleanup was attempted and failed.
#[derive(Debug)]
pub struct CleanupOutcome {
    pub text: String,
    pub elapsed_ms: u64,
    pub prompt_tokens: Option<u32>,
    pub completion_tokens: Option<u32>,
    pub error: Option<String>,
}

impl CleanupOutcome {
    /// The raw transcript, untouched, with no telemetry.
    pub fn passthrough(raw: &str) -> (o: CleanupOutcome)
        ensures
            o.text@ == raw@,
            o.elapsed_ms == 0,
            o.prompt_tokens is None,
            o.completion_tokens is None,
            o.error is None,
    {
        CleanupOutcome {
            text: raw.to_string(),
            elapsed_ms: 0,
            prompt_tokens: None,
            completion_tokens: None,
            error: None,
        }
    }
}

/// A successful cleanup gives its text and telemetry; a failed one falls
/// back to the raw transcript and carries the error's message.
pub fn cleanup_outcome(raw: &str, result: Result<CleanupOutput, BoothError>) -> (o: CleanupOutcome)
    ensures
        match result {
            Ok(out) => o.text == out.text && o.elapsed_ms == out.elapsed_ms && o.prompt_tokens
                == out.prompt_tokens && o.completion_tokens == out.completion_tokens && o.error is None,
            Err(e) => o.text@ == raw@ && o.elapsed_ms == 0 && o.prompt_tokens is None
                && o.completion_tokens is None && (o.error matches Some(m) && m@ == e.message_spec()),
        },
{
    match result {
        Ok(out) => CleanupOutcome {
            text: out.text,
            elapsed_ms: out.elapsed_ms,
            prompt_tokens: out.prompt_tokens,
            completion_tokens: out.completion_tokens,
            error: None,
        },
        Err(e) => {
            let mut o = CleanupOutcome::passthrough(raw);
            o.error = Some(e.message());
            o
        },
    }
}

/// The cleanup request for a transcript: the settings' vocabulary as
/// preferred spellings and the learned corrections.
pub fn cleanup_request<'a>(
    raw: &'a str,
    style: Style,
    app_context: Option<AppContext>,
    window_ocr: Option<String>,
    settings: &AppSettings,
) -> (r: CleanupRequest<'a>)
    ensures
        r.raw_text == raw,
        r.style == style,
        r.app_context == app_context,
        r.window_ocr == window_ocr,
        r.preferred_transcriptions@.map_values(|s: String| s@) == vocabulary_spec(settings.vocabulary@),
        misheard_view(r.commonly_misheard@) == misheard_view(settings.commonly_misheard@),
{
    CleanupRequest {
        raw_text: raw,
        style,
        app_context,
        window_ocr,
        preferred_transcriptions: parse_vocabulary(settings.vocabulary.as_str()),
        commonly_misheard: copy_misheard(&settings.commonly_misheard),
    }
}

/// The focused-field reader behind correction learning: only macOS has
/// one (through the accessibility API); elsewhere learning is off.
pub fn build_focused_text_reader(platform: crate::ocr::Platform) -> (r: Option<crate::learning::MacosFocusedTextReader>)
    ensures
        r is Some <==> platform == crate::ocr::Platform::MacOs,
{
    match platform {
        crate::ocr::Platform::MacOs => Some(crate::learning::MacosFocusedTextReader::new()),
        _ => None,
    }
}

/// A dictation's stages, as the overlay follows them.
#[derive(Debug, Clone, Copy, PartialEq, Eq, Structural)]
pub enum Stage {
    Listening,
    Transcribing,
    Cleaning,
    Pasting,
    Idle,
}

pub open spec fn stage_name_spec(s: Stage) -> Seq<char> {
    match s {
        Stage::Listening => "listening"@,
        Stage::Transcribing => "transcribing"@,
        Stage::Cleaning => "cleaning"@,
        Stage::Pasting => "pasting"@,
        Stage::Idle => "idle"@,
    }
}

/// The name a stage is announced under.
pub fn stage_name(s: Stage) -> (n: &'static str)
    ensures
        n@ == stage_name_spec(s),
{
    match s {
        Stage::Listening => "listening",
        Stage::Transcribing => "transcribing",
        Stage::Cleaning => "cleaning",
        Stage::Pasting => "pasting",
        Stage::Idle => "idle",
    }
}

/// What happens to a dictation between two announced stages.
#[derive(Debug, Clone, Copy, PartialEq, Eq, Structural)]
pub enum DictationEvent {
    /// The hotkey went down.
    Pressed,
    /// The microphone could not be started.
    AudioFailed,
    /// The hotkey came up and the capture ended.
    Released,
    /// No speech model is loaded.
    ModelMissing,
    /// Transcription failed.
    SttFailed,
    /// Transcription finished; `empty` when it heard nothing.
    Transcribed { empty: bool },
    /// The cleanup pass finished (successfully or by falling back).
    Cleaned,
    /// The paste attempt finished.
    Pasted,
}

/// One step of the stage machine: the stage announced next, and whether
/// the step announces the finished dictation with its timings.
#[derive(Debug, Clone, Copy, PartialEq, Eq, Structural)]
pub struct StageStep {
    pub next: Stage,
    pub emits_done: bool,
}

/// The stage machine of one dictation: listening, transcribing, cleaning,
/// pasting, idle. An empty transcript skips to idle but still announces the
/// finished dictation; a failure returns to idle; an event that does not
/// belong to the current stage (a release with no press) changes nothing.
pub open spec fn stage_after_spec(stage: Stage, event: DictationEvent) -> StageStep {
    match (stage, event) {
        (Stage::Idle, DictationEvent::Pressed) => StageStep { next: Stage::Listening, emits_done: false },
        (Stage::Listening, DictationEvent::AudioFailed) => StageStep { next: Stage::Idle, emits_done: false },
        (Stage::Listening, DictationEvent::Released) => StageStep { next: Stage::Transcribing, emits_done: false },
        (Stage::Transcribing, DictationEvent::ModelMissing) => StageStep { next: Stage::Idle, emits_done: false },
        (Stage::Transcribing, DictationEvent::SttFailed) => StageStep { next: Stage::Idle, emits_done: false },
        (Stage::Transcribing, DictationEvent::Transcribed { empty }) => if empty {
            StageStep { next: Stage::Idle, emits_done: true }
        } else {
            StageStep { next: Stage::Cleaning, emits_done: false }
        },
        (Stage::Cleaning, DictationEvent::Cleaned) => StageStep { next: Stage::Pasting, emits_done: false },
        (Stage::Pasting, DictationEvent::Pasted) => StageStep { next: Stage::Idle, emits_done: true },
        _ => StageStep { next: stage, emits_done: false },
    }
}

/// The next stage to announce after `event` in `stage`.
pub fn stage_after(stage: Stage, event: DictationEvent) -> (r: StageStep)
    ensures
        r == stage_after_spec(stage, event),
{
    match (stage, event) {
        (Stage::Idle, DictationEvent::Pressed) => StageStep { next: Stage::Listening, emits_done: false },
        (Stage::Listening, DictationEvent::AudioFailed) => StageStep { next: Stage::Idle, emits_done: false },
        (Stage::Listening, DictationEvent::Released) => StageStep { next: Stage::Transcribing, emits_done: false },
        (Stage::Transcribing, DictationEvent::ModelMissing) => StageStep { next: Stage::Idle, emits_done: false },
        (Stage::Transcribing, DictationEvent::SttFailed) => StageStep { next: Stage::Idle, emits_done: false },
        (Stage::Transcribing, DictationEvent::Transcribed { empty }) => if empty {
            StageStep { next: Stage::Idle, emits_done: true }
        } else {
            StageStep { next: Stage::Cleaning, emits_done: false }
        },
        (Stage::Cleaning, DictationEvent::Cleaned) => StageStep { next: Stage::Pasting, emits_done: false },
        (Stage::Pasting, DictationEvent::Pasted) => StageStep { next: Stage::Idle, emits_done: true },
        _ => StageStep { next: stage, emits_done: false },
    }
}

/// A stage's place in the announced order.
pub open spec fn stage_rank(s: Stage) -> int {
    match s {
        Stage::Idle => 0,
        Stage::Listening => 1,
        Stage::Transcribing => 2,
        Stage::Cleaning => 3,
        Stage::Pasting => 4,
    }
}

/// The stages only move forward, one at a time, in the order listening,
/// transcribing, cleaning, pasting, or fall back to idle; a dictation is
/// announced as done only on the way back to idle, from transcribing (an
/// empty transcript) or from pasting.
pub proof fn lemma_stages_move_forward(stage: Stage, event: DictationEvent)
    ensures
        ({
            let r = stage_after_spec(stage, event);
            &&& r.next == stage || r.next == Stage::Idle || stage_rank(r.next) == stage_rank(stage) + 1
            &&& r.emits_done ==> r.next == Stage::Idle && (stage == Stage::Transcribing || stage == Stage::Pasting)
        }),
{
}

/// The timing breakdown announced when a dictation finishes.
#[derive(Debug)]
pub struct DictationDone {
    pub formatted: String,
    pub capture_ms: u64,
    pub stt_ms: u64,
    pub llm_ms: u64,
    pub paste_ms: u64,
    pub total_ms: u64,
    pub llm_prompt_tokens: Option<u32>,
    pub llm_completion_tokens: Option<u32>,
}

/// An empty transcript still finishes the dictation, with no text and no
/// cleanup or paste time.
pub fn done_without_transcript(capture_ms: u64, stt_ms: u64, total_ms: u64) -> (d: DictationDone)
    ensures
        d.formatted@.len() == 0,
        d.capture_ms == capture_ms,
        d.stt_ms == stt_ms,
        d.total_ms == total_ms,
        d.llm_ms == 0,
        d.paste_ms == 0,
        d.llm_prompt_tokens is None,
        d.llm_completion_tokens is None,
{
    DictationDone {
        formatted: String::new(),
        capture_ms,
        stt_ms,
        llm_ms: 0,
        paste_ms: 0,
        total_ms,
        llm_prompt_tokens: None,
        llm_completion_tokens: None,
    }
}

/// A finished dictation's breakdown, with the cleanup's telemetry.
pub fn done_after_paste(
    outcome: CleanupOutcome,
    capture_ms: u64,
    stt_ms: u64,
    paste_ms: u64,
    total_ms: u64,
) -> (d: DictationDone)
    ensures
        d.formatted == outcome.text,
        d.llm_ms == outcome.elapsed_ms,
        d.llm_prompt_tokens == outcome.prompt_tokens,
        d.llm_completion_tokens == outcome.completion_tokens,
        d.capture_ms == capture_ms,
        d.stt_ms == stt_ms,
        d.paste_ms == paste_ms,
        d.total_ms == total_ms,
{
    DictationDone {
        formatted: outcome.text,
        capture_ms,
        stt_ms,
        llm_ms: outcome.elapsed_ms,
        paste_ms,
        total_ms,
        llm_prompt_tokens: outcome.prompt_tokens,
        llm_completion_tokens: outcome.completion_tokens,
    }
}

} // verus!
