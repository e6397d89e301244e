//! Global hotkeys: chord parsing, which chord a key event fires, and the
//! listener's edge detection for push-to-talk.
//!
//! The OS hook reports key presses and releases; [`ListenerState`] keeps
//! the set of held keys and turns each event into at most one
//! [`HotkeyEvent`]: a quick-paste or toggle chord fires on the press that
//! completes it, and push-to-talk reports `Press` when its chord becomes
//! held and `Release` when it stops being held.
use vstd::prelude::*;
use crate::settings::{eq_lit, HotkeySettings};
use crate::text::{lower_chars, lower_seq, split_on, split_on_char, str_chars, trim_chars, trim_spec, views};

verus! {

/// What the hotkey daemon reports.
#[derive(Debug, Clone, Copy, PartialEq, Eq, Structural)]
pub enum HotkeyEvent {
    /// Push-to-talk chord became held.
    Press,
    /// Push-to-talk chord stopped being held.
    Release,
    /// Quick-paste palette chord pressed.
    QuickPasteOpen,
    /// Hands-free toggle chord pressed.
    ToggleDictation,
}

/// A physical key, as far as the chords care.
#[derive(Debug, Clone, Copy, PartialEq, Eq, Structural)]
pub enum Key {
    ControlLeft,
    ControlRight,
    MetaLeft,
    MetaRight,
    Alt,
    AltGr,
    ShiftLeft,
    ShiftRight,
    Space,
    Tab,
    Escape,
    Return,
    Minus,
    Equal,
    Comma,
    Dot,
    Slash,
    BackQuote,
    /// A letter key, named by its lowercase ASCII letter.
    Letter(char),
    /// A digit key of the main row, named by its ASCII digit.
    Digit(char),
    /// Any other key, by the hook's key code.
    Other(u32),
}

/// A parsed chord: required modifiers and an optional main key.
#[derive(Debug, Clone, Copy, PartialEq, Eq, Structural)]
pub struct ParsedChord {
    pub ctrl: bool,
    pub meta: bool,
    pub alt: bool,
    pub shift: bool,
    pub key: Option<Key>,
}

pub open spec fn empty_chord() -> ParsedChord {
    ParsedChord { ctrl: false, meta: false, alt: false, shift: false, key: None }
}

pub open spec fn key_from_token_spec(t: Seq<char>) -> Option<Key> {
    if t == "space"@ || t == "spacebar"@ {
        Some(Key::Space)
    } else if t.len() == 1 && 'a' <= t[0] && t[0] <= 'z' {
        Some(Key::Letter(t[0]))
    } else if t.len() == 1 && '0' <= t[0] && t[0] <= '9' {
        Some(Key::Digit(t[0]))
    } else if t == "tab"@ {
        Some(Key::Tab)
    } else if t == "escape"@ || t == "esc"@ {
        Some(Key::Escape)
    } else if t == "enter"@ || t == "return"@ {
        Some(Key::Return)
    } else if t == "-"@ || t == "minus"@ {
        Some(Key::Minus)
    } else if t == "="@ || t == "equal"@ {
        Some(Key::Equal)
    } else if t == ","@ || t == "comma"@ {
        Some(Key::Comma)
    } else if t == "."@ || t == "dot"@ || t == "period"@ {
        Some(Key::Dot)
    } else if t == "/"@ || t == "slash"@ {
        Some(Key::Slash)
    } else if t == "`"@ || t == "backquote"@ {
        Some(Key::BackQuote)
    } else {
        None
    }
}

/// The chord after reading one (lowercased, trimmed) token; `None` for
/// an unknown key name. Empty tokens change nothing.
pub open spec fn apply_token(c: ParsedChord, t: Seq<char>) -> Option<ParsedChord> {
    if t.len() == 0 {
        Some(c)
    } else if t == "ctrl"@ || t == "control"@ {
        Some(ParsedChord { ctrl: true, ..c })
    } else if t == "cmd"@ || t == "command"@ || t == "meta"@ || t == "win"@ || t == "super"@ {
        Some(ParsedChord { meta: true, ..c })
    } else if t == "alt"@ || t == "option"@ {
        Some(ParsedChord { alt: true, ..c })
    } else if t == "shift"@ {
        Some(ParsedChord { shift: true, ..c })
    } else {
        match key_from_token_spec(t) {
            Some(k) => Some(ParsedChord { key: Some(k), ..c }),
            None => None,
        }
    }
}

pub open spec fn parse_tokens(tokens: Seq<Seq<char>>) -> Option<ParsedChord>
    decreases tokens.len(),
{
    if tokens.len() == 0 {
        Some(empty_chord())
    } else {
        match parse_tokens(tokens.drop_last()) {
            Some(c) => apply_token(c, tokens.last()),
            None => None,
        }
    }
}

/// The chord that a binding string describes: `None` for an unknown key
/// name or a chord with nothing in it.
pub open spec fn parse_chord_spec(chord: Seq<char>) -> Option<ParsedChord> {
    match parse_tokens(split_on(chord, '+').map_values(|p: Seq<char>| lower_seq(trim_spec(p)))) {
        Some(c) => if c.ctrl || c.meta || c.alt || c.shift || c.key is Some {
            Some(c)
        } else {
            None
        },
        None => None,
    }
}

fn key_from_token(t: &Vec<char>) -> (k: Option<Key>)
    ensures
        k == key_from_token_spec(t@),
{
    if eq_lit(t, "space") || eq_lit(t, "spacebar") {
        Some(Key::Space)
    } else if t.len() == 1 && 'a' <= t[0] && t[0] <= 'z' {
        Some(Key::Letter(t[0]))
    } else if t.len() == 1 && '0' <= t[0] && t[0] <= '9' {
        Some(Key::Digit(t[0]))
    } else if eq_lit(t, "tab") {
        Some(Key::Tab)
    } else if eq_lit(t, "escape") || eq_lit(t, "esc") {
        Some(Key::Escape)
    } else if eq_lit(t, "enter") || eq_lit(t, "return") {
        Some(Key::Return)
    } else if eq_lit(t, "-") || eq_lit(t, "minus") {
        Some(Key::Minus)
    } else if eq_lit(t, "=") || eq_lit(t, "equal") {
        Some(Key::Equal)
    } else if eq_lit(t, ",") || eq_lit(t, "comma") {
        Some(Key::Comma)
    } else if eq_lit(t, ".") || eq_lit(t, "dot") || eq_lit(t, "period") {
        Some(Key::Dot)
    } else if eq_lit(t, "/") || eq_lit(t, "slash") {
        Some(Key::Slash)
    } else if eq_lit(t, "`") || eq_lit(t, "backquote") {
        Some(Key::BackQuote)
    } else {
        None
    }
}

fn apply_token_exec(c: ParsedChord, t: &Vec<char>) -> (r: Option<ParsedChord>)
    ensures
        r == apply_token(c, t@),
{
    if t.len() == 0 {
        Some(c)
    } else if eq_lit(t, "ctrl") || eq_lit(t, "control") {
        Some(ParsedChord { ctrl: true, ..c })
    } else if eq_lit(t, "cmd") || eq_lit(t, "command") || eq_lit(t, "meta") || eq_lit(t, "win")
        || eq_lit(t, "super") {
        Some(ParsedChord { meta: true, ..c })
    } else if eq_lit(t, "alt") || eq_lit(t, "option") {
        Some(ParsedChord { alt: true, ..c })
    } else if eq_lit(t, "shift") {
        Some(ParsedChord { shift: true, ..c })
    } else {
        match key_from_token(t) {
            Some(k) => Some(ParsedChord { key: Some(k), ..c }),
            None => None,
        }
    }
}

/// Parse a binding such as `"Ctrl + Option + Space"`. Parts are split on
/// `+`, trimmed and lowercased; modifier names set their flag, any other
/// part names the main key. `None` for an unknown key name or an empty
/// chord.
pub fn parse_chord(chord: &str) -> (r: Option<ParsedChord>)
    ensures
        r == parse_chord_spec(chord@),
{
    let cv = str_chars(chord);
    let pieces = split_on_char(&cv, '+');
    let ghost mapped = split_on(chord@, '+').map_values(|p: Seq<char>| lower_seq(trim_spec(p)));
    let mut parsed = ParsedChord { ctrl: false, meta: false, alt: false, shift: false, key: None };
    let mut i: usize = 0;
    while i < pieces.len()
        invariant
            i <= pieces@.len(),
            views(pieces@) == split_on(chord@, '+'),
            mapped == split_on(chord@, '+').map_values(|p: Seq<char>| lower_seq(trim_spec(p))),
            parse_tokens(mapped.take(i as int)) == Some(parsed),
        decreases pieces@.len() - i,
    {
        let t = trim_chars(&pieces[i]);
        let l = lower_chars(&t);
        assert(mapped.take(i + 1).drop_last() == mapped.take(i as int));
        assert(views(pieces@)[i as int] == pieces@[i as int]@);
        assert(mapped.take(i + 1).last() == l@);
        match apply_token_exec(parsed, &l) {
            Some(p) => {
                parsed = p;
            },
            None => {
                proof {
                    lemma_parse_tokens_none_extends(mapped, i as int + 1);
                }
                return None;
            },
        }
        i = i + 1;
    }
    assert(mapped.take(pieces@.len() as int) == mapped);
    if parsed.ctrl || parsed.meta || parsed.alt || parsed.shift || parsed.key.is_some() {
        Some(parsed)
    } else {
        None
    }
}

proof fn lemma_parse_tokens_none_extends(t: Seq<Seq<char>>, k: int)
    requires
        0 <= k <= t.len(),
        parse_tokens(t.take(k)) is None,
    ensures
        parse_tokens(t) is None,
    decreases t.len() - k,
{
    if k < t.len() {
        assert(t.take(k + 1).drop_last() == t.take(k));
        lemma_parse_tokens_none_extends(t, k + 1);
    } else {
        assert(t.take(k) == t);
    }
}

/// Is the chord held, given the set of held keys? Each required modifier
/// needs one of its two keys held, and the main key (if any) must be held.
pub open spec fn active_spec(c: ParsedChord, pressed: Set<Key>) -> bool {
    &&& (!c.ctrl || pressed.contains(Key::ControlLeft) || pressed.contains(Key::ControlRight))
    &&& (!c.meta || pressed.contains(Key::MetaLeft) || pressed.contains(Key::MetaRight))
    &&& (!c.alt || pressed.contains(Key::Alt) || pressed.contains(Key::AltGr))
    &&& (!c.shift || pressed.contains(Key::ShiftLeft) || pressed.contains(Key::ShiftRight))
    &&& (c.key matches Some(k) ==> pressed.contains(k))
}

fn contains_key(pressed: &Vec<Key>, key: Key) -> (b: bool)
    ensures
        b == pressed@.contains(key),
{
    let mut i: usize = 0;
    while i < pressed.len()
        invariant
            i <= pressed.len(),
            forall|j: int| 0 <= j < i ==> pressed@[j] != key,
        decreases pressed.len() - i,
    {
        if pressed[i] == key {
            return true;
        }
        i = i + 1;
    }
    false
}

/// Is either of two keys held?
pub fn any_pressed(pressed: &Vec<Key>, a: Key, b: Key) -> (r: bool)
    ensures
        r == (pressed@.contains(a) || pressed@.contains(b)),
{
    contains_key(pressed, a) || contains_key(pressed, b)
}

impl ParsedChord {
    /// Is the chord held?
    pub fn active(&self, pressed: &Vec<Key>) -> (b: bool)
        ensures
            b == active_spec(*self, pressed@.to_set()),
    {
        proof {
            assert forall|k: Key| pressed@.to_set().contains(k) == pressed@.contains(k) by {}
        }
        (!self.ctrl || any_pressed(pressed, Key::ControlLeft, Key::ControlRight)) && (!self.meta
            || any_pressed(pressed, Key::MetaLeft, Key::MetaRight)) && (!self.alt || any_pressed(
            pressed,
            Key::Alt,
            Key::AltGr,
        )) && (!self.shift || any_pressed(pressed, Key::ShiftLeft, Key::ShiftRight)) && match
            self.key {
            Some(k) => contains_key(pressed, k),
            None => true,
        }
    }

    /// Does pressing `key` (with `pressed` held, `key` included) fire
    /// this chord? Only chords with a main key fire, on that key.
    pub fn fired_by(&self, key: Key, pressed: &Vec<Key>) -> (b: bool)
        ensures
            b == (self.key == Some(key) && active_spec(*self, pressed@.to_set())),
    {
        let same = match self.key {
            Some(k) => k == key,
            None => false,
        };
        same && self.active(pressed)
    }
}

/// The three bindings in effect.
#[derive(Debug, Clone, Copy)]
pub struct ActiveBindings {
    pub ptt: ParsedChord,
    pub toggle: ParsedChord,
    pub quick_paste: ParsedChord,
}

pub open spec fn default_ptt_chord() -> ParsedChord {
    ParsedChord { ctrl: true, meta: true, ..empty_chord() }
}

pub open spec fn default_toggle_chord() -> ParsedChord {
    ParsedChord { ctrl: true, alt: true, key: Some(Key::Space), ..empty_chord() }
}

pub open spec fn default_quick_paste_chord() -> ParsedChord {
    ParsedChord { alt: true, meta: true, key: Some(Key::Letter('h')), ..empty_chord() }
}

pub open spec fn or_chord(p: Option<ParsedChord>, d: ParsedChord) -> ParsedChord {
    match p {
        Some(c) => c,
        None => d,
    }
}

/// The bindings for the current settings; a binding that does not parse
/// falls back to its default chord (Ctrl+Meta, Ctrl+Alt+Space,
/// Alt+Meta+H).
pub fn active_bindings(hotkeys: &HotkeySettings) -> (b: ActiveBindings)
    ensures
        b.ptt == or_chord(parse_chord_spec(hotkeys.ptt@), default_ptt_chord()),
        b.toggle == or_chord(parse_chord_spec(hotkeys.toggle@), default_toggle_chord()),
        b.quick_paste == or_chord(parse_chord_spec(hotkeys.quick_paste@), default_quick_paste_chord()),
{
    let none = ParsedChord { ctrl: false, meta: false, alt: false, shift: false, key: None };
    let ptt = match parse_chord(hotkeys.ptt.as_str()) {
        Some(c) => c,
        None => ParsedChord { ctrl: true, meta: true, ..none },
    };
    let toggle = match parse_chord(hotkeys.toggle.as_str()) {
        Some(c) => c,
        None => ParsedChord { ctrl: true, alt: true, key: Some(Key::Space), ..none },
    };
    let quick_paste = match parse_chord(hotkeys.quick_paste.as_str()) {
        Some(c) => c,
        None => ParsedChord { alt: true, meta: true, key: Some(Key::Letter('h')), ..none },
    };
    ActiveBindings { ptt, toggle, quick_paste }
}

/// State of the key listener: the keys held (each once) and whether the
/// push-to-talk chord was held after the previous event.
pub struct ListenerState {
    pub pressed: Vec<Key>,
    pub ptt_was: bool,
}

impl ListenerState {
    /// No key held; push-to-talk not held.
    pub fn new() -> (s: ListenerState)
        ensures
            s.pressed@.len() == 0,
            !s.ptt_was,
            s.wf(),
    {
        ListenerState { pressed: Vec::new(), ptt_was: false }
    }

    /// Each key occurs at most once in `pressed`.
    pub open spec fn wf(&self) -> bool {
        self.pressed@.no_duplicates()
    }

    pub open spec fn held(&self) -> Set<Key> {
        self.pressed@.to_set()
    }

    /// Record a press (inserting `key`); returns whether it was not
    /// already held.
    fn insert(&mut self, key: Key) -> (fresh: bool)
        requires
            old(self).wf(),
        ensures
            final(self).wf(),
            final(self).held() == old(self).held().insert(key),
            fresh == !old(self).held().contains(key),
            final(self).ptt_was == old(self).ptt_was,
    {
        proof {
            assert forall|k: Key| old(self).held().contains(k) == old(self).pressed@.contains(k) by {}
        }
        if contains_key(&self.pressed, key) {
            assert(self.held().insert(key) =~= self.held());
            return false;
        }
        let ghost before = self.pressed@;
        self.pressed.push(key);
        assert(self.held() =~= before.to_set().insert(key)) by {
            assert forall|k: Key| self.held().contains(k) == before.to_set().insert(key).contains(k) by {
                if k == key {
                    assert(self.pressed@[before.len() as int] == key);
                } else if before.contains(k) {
                    let j = choose|j: int| 0 <= j < before.len() && #[trigger] before[j] == k;
                    assert(self.pressed@[j] == k);
                }
            }
        }
        true
    }

    /// Record a release (removing `key`).
    fn remove(&mut self, key: Key)
        requires
            old(self).wf(),
        ensures
            final(self).wf(),
            final(self).held() == old(self).held().remove(key),
            final(self).ptt_was == old(self).ptt_was,
    {
        let mut out: Vec<Key> = Vec::new();
        let ghost before = self.pressed@;
        let mut i: usize = 0;
        while i < self.pressed.len()
            invariant
                i <= self.pressed@.len(),
                self.pressed@ == before,
                before.no_duplicates(),
                out@.no_duplicates(),
                forall|k: Key| out@.contains(k) <==> (before.take(i as int).contains(k) && k != key),
            decreases self.pressed@.len() - i,
        {
            let k = self.pressed[i];
            let ghost out_before = out@;
            proof {
                lemma_push_contains(before.take(i as int), k);
                assert(before.take(i + 1) == before.take(i as int).push(k));
            }
            if k != key {
                proof {
                    if out@.contains(k) {
                        let j = choose|j: int| 0 <= j < i && #[trigger] before.take(i as int)[j] == k;
                        assert(before[j] == before[i as int]);
                    }
                }
                let ghost o = out@;
                out.push(k);
                proof {
                    lemma_push_contains(o, k);
                }
            }
            assert forall|x: Key| out@.contains(x) <==> (before.take(i + 1).contains(x) && x != key) by {
                assert(out_before.contains(x) <==> (before.take(i as int).contains(x) && x != key));
                if k == key {
                    assert(out@ == out_before);
                }
            }
            i = i + 1;
        }
        assert(before.take(before.len() as int) == before);
        self.pressed = out;
        assert(self.held() =~= before.to_set().remove(key));
    }

    /// Push-to-talk edge: `Press` when the chord becomes held, `Release`
    /// when it stops being held, nothing otherwise.
    fn ptt_edge(&mut self, bindings: &ActiveBindings) -> (e: Option<HotkeyEvent>)
        requires
            old(self).wf(),
        ensures
            final(self).wf(),
            final(self).pressed@ == old(self).pressed@,
            final(self).ptt_was == active_spec(bindings.ptt, old(self).held()),
            e == edge_spec(old(self).ptt_was, active_spec(bindings.ptt, old(self).held())),
    {
        let now = bindings.ptt.active(&self.pressed);
        let prev = self.ptt_was;
        self.ptt_was = now;
        if now != prev {
            if now {
                Some(HotkeyEvent::Press)
            } else {
                Some(HotkeyEvent::Release)
            }
        } else {
            None
        }
    }

    /// One key event from the hook: update the held set, then report a
    /// quick-paste or toggle chord completed by a fresh press, or else
    /// the push-to-talk edge.
    pub fn on_key(&mut self, key: Key, is_press: bool, bindings: &ActiveBindings) -> (e: Option<HotkeyEvent>)
        requires
            old(self).wf(),
        ensures
            final(self).wf(),
            ({
                let held = if is_press {
                    old(self).held().insert(key)
                } else {
                    old(self).held().remove(key)
                };
                let fresh = is_press && !old(self).held().contains(key);
                &&& final(self).held() == held
                &&& if fresh && bindings.quick_paste.key == Some(key) && active_spec(bindings.quick_paste, held) {
                    e == Some(HotkeyEvent::QuickPasteOpen) && final(self).ptt_was == old(self).ptt_was
                } else if fresh && bindings.toggle.key == Some(key) && active_spec(bindings.toggle, held) {
                    e == Some(HotkeyEvent::ToggleDictation) && final(self).ptt_was == old(self).ptt_was
                } else {
                    final(self).ptt_was == active_spec(bindings.ptt, held)
                        && e == edge_spec(old(self).ptt_was, active_spec(bindings.ptt, held))
                }
            }),
    {
        let fresh = if is_press {
            self.insert(key)
        } else {
            self.remove(key);
            false
        };
        if fresh && bindings.quick_paste.fired_by(key, &self.pressed) {
            return Some(HotkeyEvent::QuickPasteOpen);
        }
        if fresh && bindings.toggle.fired_by(key, &self.pressed) {
            return Some(HotkeyEvent::ToggleDictation);
        }
        self.ptt_edge(bindings)
    }

    /// Re-synchronise the held modifiers with the OS's modifier flags
    /// (for hooks that can miss a release), then report the push-to-talk
    /// edge. A held modifier is recorded as its left key; a released one
    /// clears both keys.
    pub fn resync(&mut self, ctrl: bool, meta: bool, alt: bool, shift: bool, bindings: &ActiveBindings) -> (e: Option<HotkeyEvent>)
        requires
            old(self).wf(),
        ensures
            final(self).wf(),
            ({
                let held = resync_held(old(self).held(), ctrl, meta, alt, shift);
                &&& final(self).held() == held
                &&& final(self).ptt_was == active_spec(bindings.ptt, held)
                &&& e == edge_spec(old(self).ptt_was, active_spec(bindings.ptt, held))
            }),
    {
        self.set_modifier(Key::ControlLeft, Key::ControlRight, ctrl);
        self.set_modifier(Key::MetaLeft, Key::MetaRight, meta);
        self.set_modifier(Key::Alt, Key::AltGr, alt);
        self.set_modifier(Key::ShiftLeft, Key::ShiftRight, shift);
        self.ptt_edge(bindings)
    }

    fn set_modifier(&mut self, first: Key, second: Key, down: bool)
        requires
            old(self).wf(),
        ensures
            final(self).wf(),
            final(self).held() == set_mod_spec(old(self).held(), first, second, down),
            final(self).ptt_was == old(self).ptt_was,
    {
        if down {
            self.insert(first);
        } else {
            self.remove(first);
            self.remove(second);
        }
    }
}

/// Modifier bits of the macOS event-source flags.
pub const FLAG_SHIFT: u64 = 0x20000;
pub const FLAG_CONTROL: u64 = 0x40000;
pub const FLAG_ALTERNATE: u64 = 0x80000;
pub const FLAG_COMMAND: u64 = 0x100000;

impl ListenerState {
    /// [`ListenerState::resync`] from the OS's modifier bitmask.
    pub fn resync_from_flags(&mut self, flags: u64, bindings: &ActiveBindings) -> (e: Option<HotkeyEvent>)
        requires
            old(self).wf(),
        ensures
            final(self).wf(),
            ({
                let held = resync_held(
                    old(self).held(),
                    flags & FLAG_CONTROL != 0,
                    flags & FLAG_COMMAND != 0,
                    flags & FLAG_ALTERNATE != 0,
                    flags & FLAG_SHIFT != 0,
                );
                &&& final(self).held() == held
                &&& final(self).ptt_was == active_spec(bindings.ptt, held)
                &&& e == edge_spec(old(self).ptt_was, active_spec(bindings.ptt, held))
            }),
    {
        let ctrl = flags & FLAG_CONTROL != 0;
        let meta = flags & FLAG_COMMAND != 0;
        let alt = flags & FLAG_ALTERNATE != 0;
        let shift = flags & FLAG_SHIFT != 0;
        self.resync(ctrl, meta, alt, shift, bindings)
    }
}

proof fn lemma_push_contains(s: Seq<Key>, v: Key)
    ensures
        forall|x: Key| #[trigger] s.push(v).contains(x) <==> (s.contains(x) || x == v),
{
    assert forall|x: Key| #[trigger] s.push(v).contains(x) <==> (s.contains(x) || x == v) by {
        if s.push(v).contains(x) {
            let j = choose|j: int| 0 <= j < s.push(v).len() && #[trigger] s.push(v)[j] == x;
            if j < s.len() {
                assert(s[j] == x);
            }
        }
        if s.contains(x) {
            let j = choose|j: int| 0 <= j < s.len() && #[trigger] s[j] == x;
            assert(s.push(v)[j] == x);
        }
        if x == v {
            assert(s.push(v)[s.len() as int] == x);
        }
    }
}

pub open spec fn edge_spec(was: bool, now: bool) -> Option<HotkeyEvent> {
    if now == was {
        None
    } else if now {
        Some(HotkeyEvent::Press)
    } else {
        Some(HotkeyEvent::Release)
    }
}

/// Push-to-talk events alternate: `Press` comes only when the chord goes
/// from released to held, `Release` only the other way, and nothing when
/// nothing changed. Since every step records the new state, two presses
/// never follow each other without a release between them.
pub proof fn ptt_edges_alternate(was: bool, now: bool)
    ensures
        edge_spec(was, now) == Some(HotkeyEvent::Press) <==> (!was && now),
        edge_spec(was, now) == Some(HotkeyEvent::Release) <==> (was && !now),
        edge_spec(was, now) is None <==> was == now,
{
}

/// Names of the Control modifier in a binding.
pub open spec fn names_ctrl(t: Seq<char>) -> bool {
    t == "ctrl"@ || t == "control"@
}

/// Names of the Meta (Cmd / Windows) modifier in a binding.
pub open spec fn names_meta(t: Seq<char>) -> bool {
    t == "cmd"@ || t == "command"@ || t == "meta"@ || t == "win"@ || t == "super"@
}

/// Names of the Alt (Option) modifier in a binding.
pub open spec fn names_alt(t: Seq<char>) -> bool {
    t == "alt"@ || t == "option"@
}

proof fn lemma_modifier_names_disjoint(t: Seq<char>)
    ensures
        !(names_ctrl(t) && names_meta(t)),
        !(names_ctrl(t) && names_alt(t)),
        !(names_meta(t) && names_alt(t)),
        !(names_ctrl(t) && t == "shift"@),
        !(names_meta(t) && t == "shift"@),
        !(names_alt(t) && t == "shift"@),
{
    reveal_strlit("ctrl");
    reveal_strlit("control");
    reveal_strlit("cmd");
    reveal_strlit("command");
    reveal_strlit("meta");
    reveal_strlit("win");
    reveal_strlit("super");
    reveal_strlit("alt");
    reveal_strlit("option");
    reveal_strlit("shift");
    assert("ctrl"@.len() == 4 && "control"@.len() == 7 && "cmd"@.len() == 3 && "command"@.len() == 7);
    assert("meta"@.len() == 4 && "win"@.len() == 3 && "super"@.len() == 5 && "alt"@.len() == 3);
    assert("option"@.len() == 6 && "shift"@.len() == 5);
    assert("ctrl"@[0] != "meta"@[0]);
    assert("control"@[2] != "command"@[2]);
    assert("cmd"@[1] != "alt"@[1]);
    assert("win"@[0] != "alt"@[0]);
    assert("super"@[1] != "shift"@[1]);
}

/// Every modifier name is non-empty.
proof fn lemma_modifier_names_nonempty(t: Seq<char>)
    ensures
        names_ctrl(t) || names_meta(t) || names_alt(t) || t == "shift"@ ==> t.len() > 0,
{
    reveal_strlit("ctrl");
    reveal_strlit("control");
    reveal_strlit("cmd");
    reveal_strlit("command");
    reveal_strlit("meta");
    reveal_strlit("win");
    reveal_strlit("super");
    reveal_strlit("alt");
    reveal_strlit("option");
    reveal_strlit("shift");
    assert("ctrl"@.len() == 4 && "control"@.len() == 7 && "cmd"@.len() == 3 && "command"@.len() == 7);
    assert("meta"@.len() == 4 && "win"@.len() == 3 && "super"@.len() == 5 && "alt"@.len() == 3);
    assert("option"@.len() == 6 && "shift"@.len() == 5);
}

/// Each modifier flag of a parsed token list is set exactly when one of
/// the tokens names that modifier: `ctrl`/`control` for Control,
/// `cmd`/`command`/`meta`/`win`/`super` for Meta, `alt`/`option` for Alt,
/// `shift` for Shift. In particular `option` is Alt and never Meta.
pub proof fn parsed_modifiers_come_from_their_names(tokens: Seq<Seq<char>>)
    ensures
        parse_tokens(tokens) matches Some(c) ==> {
            &&& c.ctrl <==> exists|i: int| 0 <= i < tokens.len() && names_ctrl(#[trigger] tokens[i])
            &&& c.meta <==> exists|i: int| 0 <= i < tokens.len() && names_meta(#[trigger] tokens[i])
            &&& c.alt <==> exists|i: int| 0 <= i < tokens.len() && names_alt(#[trigger] tokens[i])
            &&& c.shift <==> exists|i: int| 0 <= i < tokens.len() && #[trigger] tokens[i] == "shift"@
        },
    decreases tokens.len(),
{
    if tokens.len() > 0 {
        let init = tokens.drop_last();
        let t = tokens.last();
        parsed_modifiers_come_from_their_names(init);
        lemma_modifier_names_disjoint(t);
        lemma_modifier_names_nonempty(t);
        assert forall|i: int| 0 <= i < init.len() implies #[trigger] init[i] == tokens[i] by {}
        assert(tokens[tokens.len() - 1] == t);
        if let Some(c) = parse_tokens(tokens) {
            let c0 = parse_tokens(init).unwrap();
            assert(c.ctrl <==> (c0.ctrl || names_ctrl(t)));
            assert(c.meta <==> (c0.meta || names_meta(t)));
            assert(c.alt <==> (c0.alt || names_alt(t)));
            assert(c.shift <==> (c0.shift || t == "shift"@));
            if c.ctrl && !names_ctrl(t) {
                let i = choose|i: int| 0 <= i < init.len() && names_ctrl(#[trigger] init[i]);
                assert(names_ctrl(tokens[i]));
            }
            if c.meta && !names_meta(t) {
                let i = choose|i: int| 0 <= i < init.len() && names_meta(#[trigger] init[i]);
                assert(names_meta(tokens[i]));
            }
            if c.alt && !names_alt(t) {
                let i = choose|i: int| 0 <= i < init.len() && names_alt(#[trigger] init[i]);
                assert(names_alt(tokens[i]));
            }
            if c.shift && t != "shift"@ {
                let i = choose|i: int| 0 <= i < init.len() && #[trigger] init[i] == "shift"@;
                assert(tokens[i] == "shift"@);
            }
            if exists|i: int| 0 <= i < tokens.len() && names_ctrl(#[trigger] tokens[i]) {
                let i = choose|i: int| 0 <= i < tokens.len() && names_ctrl(#[trigger] tokens[i]);
                if i < init.len() {
                    assert(names_ctrl(init[i]));
                }
            }
            if exists|i: int| 0 <= i < tokens.len() && names_meta(#[trigger] tokens[i]) {
                let i = choose|i: int| 0 <= i < tokens.len() && names_meta(#[trigger] tokens[i]);
                if i < init.len() {
                    assert(names_meta(init[i]));
                }
            }
            if exists|i: int| 0 <= i < tokens.len() && names_alt(#[trigger] tokens[i]) {
                let i = choose|i: int| 0 <= i < tokens.len() && names_alt(#[trigger] tokens[i]);
                if i < init.len() {
                    assert(names_alt(init[i]));
                }
            }
            if exists|i: int| 0 <= i < tokens.len() && #[trigger] tokens[i] == "shift"@ {
                let i = choose|i: int| 0 <= i < tokens.len() && #[trigger] tokens[i] == "shift"@;
                if i < init.len() {
                    assert(init[i] == "shift"@);
                }
            }
        }
    }
}

/// The same for a binding string: a parsed chord has a modifier exactly
/// when one of its `+`-separated parts (trimmed, ASCII-lowercased) names it.
pub proof fn parsed_chord_modifiers_come_from_their_names(chord: Seq<char>)
    ensures
        parse_chord_spec(chord) matches Some(c) ==> {
            let parts = split_on(chord, '+').map_values(|p: Seq<char>| lower_seq(trim_spec(p)));
            &&& c.ctrl <==> exists|i: int| 0 <= i < parts.len() && names_ctrl(#[trigger] parts[i])
            &&& c.meta <==> exists|i: int| 0 <= i < parts.len() && names_meta(#[trigger] parts[i])
            &&& c.alt <==> exists|i: int| 0 <= i < parts.len() && names_alt(#[trigger] parts[i])
            &&& c.shift <==> exists|i: int| 0 <= i < parts.len() && #[trigger] parts[i] == "shift"@
        },
{
    parsed_modifiers_come_from_their_names(split_on(chord, '+').map_values(|p: Seq<char>| lower_seq(trim_spec(p))));
}

pub open spec fn set_mod_spec(held: Set<Key>, first: Key, second: Key, down: bool) -> Set<Key> {
    if down {
        held.insert(first)
    } else {
        held.remove(first).remove(second)
    }
}

pub open spec fn resync_held(held: Set<Key>, ctrl: bool, meta: bool, alt: bool, shift: bool) -> Set<Key> {
    set_mod_spec(
        set_mod_spec(
            set_mod_spec(set_mod_spec(held, Key::ControlLeft, Key::ControlRight, ctrl), Key::MetaLeft, Key::MetaRight, meta),
            Key::Alt,
            Key::AltGr,
            alt,
        ),
        Key::ShiftLeft,
        Key::ShiftRight,
        shift,
    )
}

} // verus!
