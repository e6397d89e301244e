//! The earlier, LLM-only settings document (`settings.json` in the app's
//! data directory): its shape, its defaults and where it lives. Reading
//! and writing the file is the caller's.
use vstd::prelude::*;
use crate::paths::{join_path, joined, relative_leaf, simple_base};

verus! {

/// The LLM endpoint section. Empty strings mean "use the default".
#[derive(Debug)]
pub struct LlmSettings {
    /// Full chat-completions URL.
    pub endpoint: String,
    /// Model name as the endpoint expects it.
    pub model: String,
    /// Bearer token; empty means no auth.
    pub api_key: String,
    /// Skip cleanup entirely.
    pub disabled: bool,
}

/// The whole document.
#[derive(Debug)]
pub struct AppSettings {
    pub llm: LlmSettings,
}

impl Default for LlmSettings {
    fn default() -> (s: LlmSettings)
        ensures
            s.endpoint@.len() == 0,
            s.model@.len() == 0,
            s.api_key@.len() == 0,
            !s.disabled,
    {
        LlmSettings { endpoint: String::new(), model: String::new(), api_key: String::new(), disabled: false }
    }
}

impl Default for AppSettings {
    fn default() -> (s: AppSettings)
        ensures
            s.llm.endpoint@.len() == 0,
            s.llm.model@.len() == 0,
            s.llm.api_key@.len() == 0,
            !s.llm.disabled,
    {
        AppSettings { llm: LlmSettings::default() }
    }
}

/// The document's file name.
pub const FILENAME: &'static str = "settings.json";

/// The document inside the app's data directory.
pub fn settings_path(app_data_dir: &str) -> (p: String)
    ensures
        simple_base(app_data_dir@) ==> joined(app_data_dir@, FILENAME@, p@),
{
    proof {
        reveal_strlit("settings.json");
        assert(FILENAME@.len() == 13);
        assert(relative_leaf(FILENAME@));
    }
    join_path(app_data_dir, FILENAME)
}

/// What a load gives: the parsed document, or the defaults when the file
/// is missing or does not parse.
pub fn loaded_or_default(parsed: Option<AppSettings>) -> (s: AppSettings)
    ensures
        match parsed {
            Some(p) => s == p,
            None => s.llm.endpoint@.len() == 0 && s.llm.model@.len() == 0 && s.llm.api_key@.len() == 0
                && !s.llm.disabled,
        },
{
    match parsed {
        Some(p) => p,
        None => AppSettings::default(),
    }
}

} // verus!
