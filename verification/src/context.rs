//! The focused application, as the cleanup prompt and the history see it.
use vstd::prelude::*;
use crate::text::{
    chars_to_string, ends_with_chars, ends_with_spec, str_chars, to_lowercase, trim_end_matches_chars,
    trim_end_matches_spec, unicode_lower,
};

verus! {

/// The foreground app at the moment dictation ended.
#[derive(Debug)]
pub struct AppContext {
    /// Stable identifier: bundle ID on macOS, lowercased exe file name on
    /// Windows.
    pub app_exe: String,
    /// Human-readable app name.
    pub app_name: String,
    /// Best-effort window title.
    pub window_title: Option<String>,
    /// Role of the focused control, if reported.
    pub control_role: Option<String>,
}

/// Source of the foreground-app context.
pub trait ContextDetector {
    fn detect(&self) -> Option<AppContext>;
}

/// The platform detector. It holds no state; the platform queries are
/// made by the caller and turned into an [`AppContext`] by
/// [`context_from_macos`] or [`context_from_windows`].
#[derive(Debug, Default, Clone, Copy)]
pub struct RealContextDetector;

impl RealContextDetector {
    pub fn new() -> (d: RealContextDetector)
        ensures
            d == RealContextDetector,
    {
        RealContextDetector
    }
}

pub open spec fn first_some(a: Option<String>, b: Option<String>) -> Seq<char> {
    match a {
        Some(s) => s@,
        None => match b {
            Some(s) => s@,
            None => Seq::empty(),
        },
    }
}

fn first_some_exec(a: &Option<String>, b: &Option<String>) -> (r: String)
    ensures
        r@ == first_some(*a, *b),
{
    match a {
        Some(s) => s.clone(),
        None => match b {
            Some(s) => s.clone(),
            None => String::new(),
        },
    }
}

/// macOS: the identifier prefers the bundle ID, the name prefers the
/// localised name, each falling back to the other; no context when both
/// are missing or empty.
pub fn context_from_macos(bundle_id: Option<String>, localized_name: Option<String>) -> (r: Option<AppContext>)
    ensures
        ({
            let exe = first_some(bundle_id, localized_name);
            let name = first_some(localized_name, bundle_id);
            if exe.len() == 0 && name.len() == 0 {
                r is None
            } else {
                r matches Some(c) && c.app_exe@ == exe && c.app_name@ == name && c.window_title is None
                    && c.control_role is None
            }
        }),
{
    let app_exe = first_some_exec(&bundle_id, &localized_name);
    let app_name = first_some_exec(&localized_name, &bundle_id);
    if app_exe.as_str().is_empty() && app_name.as_str().is_empty() {
        return None;
    }
    Some(AppContext { app_exe, app_name, window_title: None, control_role: None })
}

/// The Windows context for an executable file name: its lowercase form is
/// the identifier, and the rest follows [`context_from_windows_exe`].
pub fn context_from_windows(exe_file_name: &str, window_title: Option<String>) -> (r: Option<AppContext>)
    ensures
        ({
            let exe = unicode_lower(exe_file_name@);
            &&& exe.len() == 0 && window_title is None ==> r is None
            &&& !(exe.len() == 0 && window_title is None) ==> (r matches Some(c) && c.app_exe@ == exe
                && c.app_name@ == windows_app_name(exe) && c.window_title == window_title
                && c.control_role is None)
        }),
{
    let exe = to_lowercase(exe_file_name);
    context_from_windows_exe(exe, window_title)
}

/// The display name for a lowercased executable name: without its trailing
/// `.exe`s.
pub open spec fn windows_app_name(exe: Seq<char>) -> Seq<char> {
    if ends_with_spec(exe, ".exe"@) {
        trim_end_matches_spec(exe, ".exe"@)
    } else {
        exe
    }
}

/// Windows: `exe` is the lowercased executable file name (empty when the
/// path has none). No context when there is neither a name nor a title;
/// the display name drops trailing `.exe`.
pub fn context_from_windows_exe(exe: String, window_title: Option<String>) -> (r: Option<AppContext>)
    ensures
        exe@.len() == 0 && window_title is None ==> r is None,
        !(exe@.len() == 0 && window_title is None) ==> (r matches Some(c) && c.app_exe@ == exe@
            && c.app_name@ == windows_app_name(exe@) && c.window_title == window_title
            && c.control_role is None),
{
    if exe.as_str().is_empty() && window_title.is_none() {
        return None;
    }
    let ev = str_chars(exe.as_str());
    let suffix = str_chars(".exe");
    let app_name = if ends_with_chars(&ev, &suffix) {
        let t = trim_end_matches_chars(&ev, &suffix);
        chars_to_string(&t)
    } else {
        exe.clone()
    };
    Some(AppContext { app_exe: exe, app_name, window_title, control_role: None })
}

} // verus!
