//! The cleanup pass: its request and result types, the backend trait,
//! when the pass is skipped, and the decisions of the OpenAI-compatible
//! HTTP backend that do not need the network.
use vstd::prelude::*;
use crate::context::AppContext;
use crate::error::BoothError;
use crate::settings::{opt_view, LlmSettings, MisheardReplacement, Style};
use crate::text::{
    chars_to_string, contains_chars, contains_seq, split_words, str_chars, to_lowercase, trim_chars,
    trim_spec, unicode_lower, words,
};

verus! {

/// Fewer words than this and the cleanup pass is skipped.
pub const MIN_WORDS_FOR_CLEANUP: usize = 6;

/// One cleanup call.
pub struct CleanupRequest<'a> {
    pub raw_text: &'a str,
    pub style: Style,
    /// Foreground app when dictation ended, if known.
    pub app_context: Option<AppContext>,
    /// OCR of the focused window, when enabled.
    pub window_ocr: Option<String>,
    /// Vocabulary terms whose spelling is authoritative.
    pub preferred_transcriptions: Vec<String>,
    /// Wrong-to-right substitutions.
    pub commonly_misheard: Vec<MisheardReplacement>,
}

/// Result of a cleanup pass with its telemetry. Token counts are `None`
/// when the backend does not report them.
#[derive(Debug)]
pub struct CleanupOutput {
    pub text: String,
    pub prompt_tokens: Option<u32>,
    pub completion_tokens: Option<u32>,
    pub elapsed_ms: u64,
}

/// A cleanup backend.
pub trait LlmCleanup {
    fn cleanup(&self, request: CleanupRequest) -> Result<CleanupOutput, BoothError>;

    fn name(&self) -> &str;
}

pub open spec fn should_skip_spec(raw: Seq<char>, llm_enabled: bool) -> bool {
    !llm_enabled || words(raw).len() < MIN_WORDS_FOR_CLEANUP
}

/// Skip the pass when the LLM is disabled or the transcript has fewer
/// than six words.
pub fn should_skip_llm(raw: &str, llm_enabled: bool) -> (b: bool)
    ensures
        b == should_skip_spec(raw@, llm_enabled),
{
    if !llm_enabled {
        return true;
    }
    let v = str_chars(raw);
    let w = split_words(&v);
    proof {
        assert(crate::text::views(w@).len() == w@.len());
    }
    w.len() < MIN_WORDS_FOR_CLEANUP
}

/// The default cleanup endpoint (a local Ollama server).
pub const DEFAULT_ENDPOINT: &'static str = "http://localhost:11434/v1/chat/completions";

/// The default cleanup model.
pub const DEFAULT_MODEL: &'static str = "qwen2.5:7b";

pub open spec fn looks_like_ollama_spec(endpoint: Seq<char>) -> bool {
    contains_seq(unicode_lower(endpoint), ":11434"@)
}

/// Does an already lowercased endpoint name Ollama's default port?
pub fn lowered_endpoint_is_ollama(lowered: &str) -> (b: bool)
    ensures
        b == contains_seq(lowered@, ":11434"@),
{
    let lv = str_chars(lowered);
    let needle = str_chars(":11434");
    contains_chars(&lv, &needle)
}

/// Is the endpoint Ollama's default port? Only such endpoints are sent
/// the `keep_alive` field, which some strict gateways reject.
pub fn looks_like_ollama(endpoint: &str) -> (b: bool)
    ensures
        b == looks_like_ollama_spec(endpoint@),
{
    let lower = to_lowercase(endpoint);
    lowered_endpoint_is_ollama(lower.as_str())
}

/// `"5m"` for Ollama endpoints, empty (the field is then left out)
/// otherwise.
pub fn keep_alive_for_endpoint(endpoint: &str) -> (s: &'static str)
    ensures
        s@ == if looks_like_ollama_spec(endpoint@) {
            "5m"@
        } else {
            ""@
        },
{
    if looks_like_ollama(endpoint) {
        "5m"
    } else {
        ""
    }
}

/// Connection settings of the HTTP backend.
#[derive(Debug)]
pub struct OpenAiCompatConfig {
    pub endpoint: String,
    pub model: String,
    pub api_key: Option<String>,
}

/// The key to send: none when missing or blank.
pub fn effective_api_key(key: &Option<String>) -> (r: Option<String>)
    ensures
        opt_view(r) == match key {
            Some(k) => if trim_spec(k@).len() > 0 {
                Some(k@)
            } else {
                None
            },
            None => None,
        },
{
    match key {
        Some(k) => {
            let v = str_chars(k.as_str());
            let t = trim_chars(&v);
            if t.len() > 0 {
                Some(k.clone())
            } else {
                None
            }
        },
        None => None,
    }
}

/// The backend configuration for the settings, or `None` when cleanup
/// is disabled.
pub fn config_from_settings(settings: &LlmSettings) -> (r: Option<OpenAiCompatConfig>)
    ensures
        !settings.enabled ==> r is None,
        settings.enabled ==> (r matches Some(c) && c.endpoint@ == settings.endpoint@ && c.model@
            == settings.model@ && opt_view(c.api_key) == match settings.api_key {
            Some(k) => if trim_spec(k@).len() > 0 {
                Some(k@)
            } else {
                None
            },
            None => None,
        }),
{
    if !settings.enabled {
        return None;
    }
    Some(
        OpenAiCompatConfig {
            endpoint: settings.endpoint.clone(),
            model: settings.model.clone(),
            api_key: effective_api_key(&settings.api_key),
        },
    )
}

/// The cleaned text from the first choice of a chat-completions reply:
/// trimmed, or a formatting error when the reply has no choice.
pub fn cleanup_text_from_reply(first_choice: Option<String>) -> (r: Result<String, BoothError>)
    ensures
        match first_choice {
            Some(c) => r matches Ok(t) && t@ == trim_spec(c@),
            None => r matches Err(BoothError::Formatting(m)) && m@ == "llm: empty response"@,
        },
{
    match first_choice {
        Some(c) => {
            let v = str_chars(c.as_str());
            let t = trim_chars(&v);
            Ok(chars_to_string(&t))
        },
        None => Err(BoothError::Formatting("llm: empty response".to_string())),
    }
}

/// A chat-completions reply's first choice and reported token counts,
/// turned into the cleanup's output: the choice's text trimmed, or a
/// formatting error when there is no choice.
pub fn cleanup_output(
    first_choice: Option<String>,
    prompt_tokens: Option<u32>,
    completion_tokens: Option<u32>,
    elapsed_ms: u64,
) -> (r: Result<CleanupOutput, BoothError>)
    ensures
        match first_choice {
            Some(c) => r matches Ok(o) && o.text@ == trim_spec(c@) && o.prompt_tokens == prompt_tokens
                && o.completion_tokens == completion_tokens && o.elapsed_ms == elapsed_ms,
            None => r matches Err(BoothError::Formatting(m)) && m@ == "llm: empty response"@,
        },
{
    let text = cleanup_text_from_reply(first_choice)?;
    Ok(CleanupOutput { text, prompt_tokens, completion_tokens, elapsed_ms })
}

/// A formatting error `<prefix><detail>`.
fn formatting_error(prefix: &str, detail: &str) -> (e: BoothError)
    ensures
        e matches BoothError::Formatting(m) && m@ == prefix@ + detail@,
{
    let mut m = prefix.to_string();
    let d = str_chars(detail);
    crate::text::push_chars(&mut m, &d);
    BoothError::Formatting(m)
}

/// The request could not be sent.
pub fn transport_error(detail: &str) -> (e: BoothError)
    ensures
        e matches BoothError::Formatting(m) && m@ == "llm http: "@ + detail@,
{
    formatting_error("llm http: ", detail)
}

/// The endpoint answered with a failure status; the error carries the
/// status and the response body.
pub fn status_error(status: &str, body: &str) -> (e: BoothError)
    ensures
        e matches BoothError::Formatting(m) && m@ == "llm http "@ + status@ + ": "@ + body@,
{
    let head = formatting_error("llm http ", status);
    match head {
        BoothError::Formatting(mut m) => {
            let sep = str_chars(": ");
            crate::text::push_chars(&mut m, &sep);
            let b = str_chars(body);
            crate::text::push_chars(&mut m, &b);
            BoothError::Formatting(m)
        },
        _ => head,
    }
}

/// The reply did not parse.
pub fn json_error(detail: &str) -> (e: BoothError)
    ensures
        e matches BoothError::Formatting(m) && m@ == "llm json: "@ + detail@,
{
    formatting_error("llm json: ", detail)
}

/// The HTTP client could not be built.
pub fn client_error(detail: &str) -> (e: BoothError)
    ensures
        e matches BoothError::Formatting(m) && m@ == "reqwest client: "@ + detail@,
{
    formatting_error("reqwest client: ", detail)
}

/// `i` is what the prompt builder is handed for `request`: the request's
/// style, context, OCR, vocabulary and corrections, and the stardate.
pub open spec fn inputs_for(request: &CleanupRequest, stardate: &str, i: crate::prompt::CleanupPromptInputs) -> bool {
    &&& i.style == request.style
    &&& i.app_context == match &request.app_context {
        Some(c) => Some(c),
        None => None::<&AppContext>,
    }
    &&& match request.window_ocr {
        Some(o) => i.window_ocr matches Some(w) && w@ == o@,
        None => i.window_ocr is None,
    }
    &&& i.preferred_transcriptions@ == request.preferred_transcriptions@
    &&& i.commonly_misheard@ == request.commonly_misheard@
    &&& i.stardate == stardate
}

/// The prompt builder's inputs for a cleanup request.
pub fn prompt_inputs<'a>(request: &'a CleanupRequest, stardate: &'a str) -> (i: crate::prompt::CleanupPromptInputs<'a>)
    ensures
        inputs_for(request, stardate, i),
{
    crate::prompt::CleanupPromptInputs {
        style: request.style,
        app_context: request.app_context.as_ref(),
        window_ocr: match &request.window_ocr {
            Some(o) => Some(o.as_str()),
            None => None,
        },
        preferred_transcriptions: request.preferred_transcriptions.as_slice(),
        commonly_misheard: request.commonly_misheard.as_slice(),
        stardate,
    }
}


// ---------------------------------------------------------------------
// Chat-completions requests

/// One message of a chat-completions request.
#[derive(Debug)]
pub struct ChatMessage {
    pub role: &'static str,
    pub content: String,
}

/// A chat-completions call: where it goes, its JSON body and its
/// authentication. `temperature` is the sampling temperature, sent as a
/// JSON number; `keep_alive` is left out of the body when empty; `bearer`
/// is the key sent as bearer authentication, if any.
#[derive(Debug)]
pub struct ChatRequest {
    pub endpoint: String,
    pub model: String,
    pub messages: Vec<ChatMessage>,
    pub temperature: u32,
    pub stream: bool,
    pub keep_alive: &'static str,
    pub bearer: Option<String>,
}

/// `r` is the call to `config`'s endpoint with its model, the `system` and
/// `user` messages in that order, temperature zero, no streaming, Ollama's
/// `keep_alive` of five minutes for Ollama endpoints only, and the
/// configured key (if any) as bearer authentication.
pub open spec fn chat_request_for(config: &OpenAiCompatConfig, system: Seq<char>, user: Seq<char>, r: &ChatRequest) -> bool {
    &&& r.endpoint@ == config.endpoint@
    &&& r.model@ == config.model@
    &&& r.messages@.len() == 2
    &&& r.messages@[0].role@ == "system"@
    &&& r.messages@[0].content@ == system
    &&& r.messages@[1].role@ == "user"@
    &&& r.messages@[1].content@ == user
    &&& r.temperature == 0
    &&& !r.stream
    &&& r.keep_alive@ == if looks_like_ollama_spec(config.endpoint@) {
        "5m"@
    } else {
        ""@
    }
    &&& opt_view(r.bearer) == opt_view(config.api_key)
}

/// The chat-completions call with a system and a user message.
pub fn chat_request(config: &OpenAiCompatConfig, system: String, user: &str) -> (r: ChatRequest)
    ensures
        chat_request_for(config, system@, user@, &r),
{
    let mut messages: Vec<ChatMessage> = Vec::new();
    messages.push(ChatMessage { role: "system", content: system });
    messages.push(ChatMessage { role: "user", content: user.to_string() });
    let bearer = match &config.api_key {
        Some(k) => Some(k.clone()),
        None => None,
    };
    ChatRequest {
        endpoint: config.endpoint.clone(),
        model: config.model.clone(),
        messages,
        temperature: 0,
        stream: false,
        keep_alive: keep_alive_for_endpoint(config.endpoint.as_str()),
        bearer,
    }
}

/// The cleanup call for `request`: the system message is the prompt built
/// from the request (with `stardate` for the captain's-log style), the user
/// message is the raw transcript.
pub fn cleanup_chat_request(config: &OpenAiCompatConfig, request: &CleanupRequest, stardate: &str) -> (r: ChatRequest)
    ensures
        forall|i: crate::prompt::CleanupPromptInputs| #[trigger] inputs_for(request, stardate, i)
            ==> chat_request_for(config, crate::prompt::system_prompt_spec(i), request.raw_text@, &r),
{
    let inputs = prompt_inputs(request, stardate);
    let system = crate::prompt::build_system_prompt(&inputs);
    chat_request(config, system, request.raw_text)
}

/// The system message of the warm-up call.
pub const PREWARM_SYSTEM: &'static str = "respond with the word 'ok'";

/// The user message of the warm-up call.
pub const PREWARM_USER: &'static str = "warmup";

/// The warm-up call that loads the model before the first dictation.
pub fn prewarm_request(config: &OpenAiCompatConfig) -> (r: ChatRequest)
    ensures
        chat_request_for(config, PREWARM_SYSTEM@, PREWARM_USER@, &r),
{
    chat_request(config, PREWARM_SYSTEM.to_string(), PREWARM_USER)
}

} // verus!
