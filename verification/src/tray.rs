//! The system tray: the pause flag, the tooltip text, the pause menu
//! item's label and what each menu entry does. Drawing the tray is left to
//! the caller.
use vstd::prelude::*;
use crate::settings::{current_hotkeys, RuntimeSettings};
use crate::text::{push_chars, str_chars};

verus! {

/// The process-wide pause flag: while set, hotkey presses are ignored.
#[derive(Debug)]
pub struct PauseFlag {
    pub paused: bool,
}

impl PauseFlag {
    pub fn new() -> (f: PauseFlag)
        ensures
            !f.paused,
    {
        PauseFlag { paused: false }
    }

    /// Flips the flag and returns whether dictation is now paused.
    pub fn toggle(&mut self) -> (now_paused: bool)
        ensures
            final(self).paused == !old(self).paused,
            now_paused == final(self).paused,
    {
        self.paused = !self.paused;
        self.paused
    }
}

pub fn is_paused(flag: &PauseFlag) -> (b: bool)
    ensures
        b == flag.paused,
{
    flag.paused
}

/// What a tray menu entry does.
#[derive(Debug, Clone, Copy, PartialEq, Eq, Structural)]
pub enum MenuAction {
    OpenSettings,
    TogglePause,
    Quit,
    Ignore,
}

pub open spec fn menu_action_spec(id: Seq<char>) -> MenuAction {
    if id == "open"@ {
        MenuAction::OpenSettings
    } else if id == "pause"@ {
        MenuAction::TogglePause
    } else if id == "quit"@ {
        MenuAction::Quit
    } else {
        MenuAction::Ignore
    }
}

pub fn menu_action(id: &str) -> (a: MenuAction)
    ensures
        a == menu_action_spec(id@),
{
    let v = str_chars(id);
    if crate::settings::eq_lit(&v, "open") {
        MenuAction::OpenSettings
    } else if crate::settings::eq_lit(&v, "pause") {
        MenuAction::TogglePause
    } else if crate::settings::eq_lit(&v, "quit") {
        MenuAction::Quit
    } else {
        MenuAction::Ignore
    }
}

/// The pause entry reads "Resume" while paused and "Pause" otherwise.
pub fn pause_menu_label(now_paused: bool) -> (s: &'static str)
    ensures
        s@ == (if now_paused { "Resume"@ } else { "Pause"@ }),
{
    if now_paused {
        "Resume"
    } else {
        "Pause"
    }
}

pub open spec fn idle_tooltip_spec(hotkey: Seq<char>) -> Seq<char> {
    "boothrflow — idle ("@ + hotkey + " to dictate)"@
}

/// The tray tooltip: paused wins over listening, which wins over idle;
/// the idle text names the push-to-talk chord.
pub open spec fn tooltip_spec(paused: bool, listening: bool, hotkey: Seq<char>) -> Seq<char> {
    if paused {
        "boothrflow — paused"@
    } else if listening {
        "boothrflow — listening"@
    } else {
        idle_tooltip_spec(hotkey)
    }
}

pub fn tooltip(paused: bool, listening: bool, hotkey: &str) -> (s: String)
    ensures
        s@ == tooltip_spec(paused, listening, hotkey@),
{
    if paused {
        "boothrflow — paused".to_string()
    } else if listening {
        "boothrflow — listening".to_string()
    } else {
        let mut s = "boothrflow — idle (".to_string();
        let h = str_chars(hotkey);
        push_chars(&mut s, &h);
        let tail = str_chars(" to dictate)");
        push_chars(&mut s, &tail);
        s
    }
}

/// The chord that starts a dictation, as the tooltip shows it.
pub fn dictation_hotkey_label(rt: &RuntimeSettings) -> (s: String)
    ensures
        s@ == rt.settings.hotkeys.ptt@,
{
    current_hotkeys(rt).ptt
}

/// Which icon the tray uses, for the log.
pub fn tray_icon_kind(is_macos: bool) -> (s: &'static str)
    ensures
        s@ == (if is_macos { "macOS app"@ } else { "default window"@ }),
{
    if is_macos {
        "macOS app"
    } else {
        "default window"
    }
}

} // verus!
