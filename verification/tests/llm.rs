use boothrflow::error::BoothError;
use boothrflow::llm::{
    cleanup_output, cleanup_text_from_reply, client_error, json_error, keep_alive_for_endpoint,
    looks_like_ollama, lowered_endpoint_is_ollama, should_skip_llm, status_error, transport_error, DEFAULT_ENDPOINT,
    chat_request, cleanup_chat_request, prewarm_request, CleanupRequest, OpenAiCompatConfig,
};
use boothrflow::prompt::{build_system_prompt, CleanupPromptInputs};
use boothrflow::settings::Style;

#[test]
fn ollama_default_endpoint_gets_keep_alive() {
    assert!(looks_like_ollama(DEFAULT_ENDPOINT));
    assert_eq!(keep_alive_for_endpoint(DEFAULT_ENDPOINT), "5m");
}

#[test]
fn lm_studio_default_port_does_not_get_keep_alive() {
    let e = "http://localhost:1234/v1/chat/completions";
    assert!(!looks_like_ollama(e));
    assert_eq!(keep_alive_for_endpoint(e), "");
}

#[test]
fn llama_server_default_port_does_not_get_keep_alive() {
    assert!(!looks_like_ollama("http://localhost:8080/v1/chat/completions"));
}

#[test]
fn ollama_alt_port_misses_optimization_acceptably() {
    assert!(!looks_like_ollama("http://localhost:9999/v1/chat/completions"));
}

#[test]
fn openai_endpoint_skips_keep_alive() {
    let e = "https://api.openai.com/v1/chat/completions";
    assert!(!looks_like_ollama(e));
    assert_eq!(keep_alive_for_endpoint(e), "");
}

#[test]
fn anthropic_endpoint_skips_keep_alive() {
    assert!(!looks_like_ollama("https://api.anthropic.com/v1/messages"));
}

#[test]
fn short_or_disabled_skips_cleanup() {
    assert!(should_skip_llm("one two three four five six", false));
    assert!(should_skip_llm("one two three four five", true));
    assert!(!should_skip_llm("one two three four five six", true));
    assert!(should_skip_llm("   ", true));
}

#[test]
fn reply_text_is_trimmed_and_missing_choice_is_an_error() {
    assert_eq!(cleanup_text_from_reply(Some("  Hello.\n".into())).unwrap(), "Hello.");
    match cleanup_text_from_reply(None) {
        Err(BoothError::Formatting(m)) => assert_eq!(m, "llm: empty response"),
        _ => panic!("expected a formatting error"),
    }
}

#[test]
fn cleanup_output_carries_usage() {
    let out = cleanup_output(Some(" ok ".into()), Some(12), Some(3), 250).unwrap();
    assert_eq!(out.text, "ok");
    assert_eq!(out.prompt_tokens, Some(12));
    assert_eq!(out.completion_tokens, Some(3));
    assert_eq!(out.elapsed_ms, 250);
    assert!(cleanup_output(None, None, None, 1).is_err());
}

#[test]
fn http_errors_have_their_prefixes() {
    assert_eq!(transport_error("timeout").message(), "formatting failed: llm http: timeout");
    assert_eq!(
        status_error("500 Internal Server Error", "boom").message(),
        "formatting failed: llm http 500 Internal Server Error: boom"
    );
    assert_eq!(json_error("eof").message(), "formatting failed: llm json: eof");
    assert_eq!(client_error("tls").message(), "formatting failed: reqwest client: tls");
}

#[test]
fn lowered_endpoint_port_check() {
    assert!(lowered_endpoint_is_ollama("http://localhost:11434/v1"));
    assert!(!lowered_endpoint_is_ollama("http://localhost:1143/v1"));
    assert!(looks_like_ollama("HTTP://LOCALHOST:11434/V1"));
}

fn config(endpoint: &str, key: Option<&str>) -> OpenAiCompatConfig {
    OpenAiCompatConfig {
        endpoint: endpoint.to_string(),
        model: "test-model".to_string(),
        api_key: key.map(|k| k.to_string()),
    }
}

#[test]
fn chat_request_for_ollama_carries_keep_alive_and_no_auth() {
    let r = chat_request(&config(DEFAULT_ENDPOINT, None), "sys".to_string(), "hello");
    assert_eq!(r.endpoint, DEFAULT_ENDPOINT);
    assert_eq!(r.model, "test-model");
    assert_eq!(r.messages.len(), 2);
    assert_eq!(r.messages[0].role, "system");
    assert_eq!(r.messages[0].content, "sys");
    assert_eq!(r.messages[1].role, "user");
    assert_eq!(r.messages[1].content, "hello");
    assert_eq!(r.temperature, 0);
    assert!(!r.stream);
    assert_eq!(r.keep_alive, "5m");
    assert!(r.bearer.is_none());
}

#[test]
fn chat_request_for_cloud_sends_key_without_keep_alive() {
    let r = chat_request(&config("https://api.openai.com/v1/chat/completions", Some("sk-x")), "s".into(), "u");
    assert_eq!(r.keep_alive, "");
    assert_eq!(r.bearer.as_deref(), Some("sk-x"));
}

#[test]
fn cleanup_request_uses_built_prompt_and_raw_text() {
    let req = CleanupRequest {
        raw_text: "um so this is the raw transcript text",
        style: Style::Casual,
        app_context: None,
        window_ocr: None,
        preferred_transcriptions: vec!["Verus".to_string()],
        commonly_misheard: vec![],
    };
    let expected = build_system_prompt(&CleanupPromptInputs {
        style: Style::Casual,
        app_context: None,
        window_ocr: None,
        preferred_transcriptions: &req.preferred_transcriptions,
        commonly_misheard: &req.commonly_misheard,
        stardate: "",
    });
    let r = cleanup_chat_request(&config(DEFAULT_ENDPOINT, None), &req, "");
    assert_eq!(r.messages[0].content, expected);
    assert!(r.messages[0].content.contains("Verus"));
    assert_eq!(r.messages[1].content, "um so this is the raw transcript text");
    assert_eq!(r.keep_alive, "5m");
}

#[test]
fn prewarm_request_is_the_fixed_warmup() {
    let r = prewarm_request(&config("http://127.0.0.1:8080/v1/chat/completions", None));
    assert_eq!(r.messages[0].content, "respond with the word 'ok'");
    assert_eq!(r.messages[1].content, "warmup");
    assert_eq!(r.keep_alive, "");
    assert_eq!(r.temperature, 0);
}

#[test]
fn uppercase_ollama_endpoint_is_recognised() {
    assert!(looks_like_ollama("HTTP://LOCALHOST:11434/V1/CHAT/COMPLETIONS"));
    assert_eq!(keep_alive_for_endpoint("http://LocalHost:11434/v1"), "5m");
}
