use boothrflow::error::BoothError;
use boothrflow::hotkey::HotkeyEvent;
use boothrflow::llm::CleanupOutput;
use boothrflow::ocr::Platform;
use boothrflow::session::{
    build_focused_text_reader, cleanup_outcome, ends_capture, formatted_differs,
    learned_corrections_update, on_idle_event, parse_vocabulary, plan_cleanup, should_capture_ocr,
    should_observe_paste, still_learning, stt_kind, stt_reload_needed, CleanupPlan, IdleAction,
    LlmClientState, SttKind, MAX_LEARNED_CORRECTIONS, stage_after, stage_name, DictationEvent, Stage,
};
use boothrflow::settings::{default_app_settings, MisheardReplacement, SettingsEnv, Style};

fn env() -> SettingsEnv {
    SettingsEnv {
        llm_disabled: false,
        llm_endpoint: None,
        llm_model: None,
        llm_api_key: None,
        history_disabled: false,
        embed_endpoint: None,
        embed_model: None,
        embed_api_key: None,
        whisper_prompt: None,
        whisper_model_file: None,
    }
}

#[test]
fn vocabulary_is_split_trimmed_and_deduped() {
    let v = parse_vocabulary("Qwen, boothrflow\nTauri;; Qwen ,qwen\n\n");
    assert_eq!(v, vec!["Qwen", "boothrflow", "Tauri", "qwen"]);
    assert!(parse_vocabulary(" , ;\n").is_empty());
}

#[test]
fn learned_correction_is_appended() {
    let s = default_app_settings(&env(), false);
    let pair = MisheardReplacement::new("kwen", "qwen");
    let next = learned_corrections_update(&s, &pair).unwrap();
    assert_eq!(next.len(), 1);
    assert_eq!(next[0].wrong, "kwen");
    assert_eq!(next[0].right, "qwen");
}

#[test]
fn preferred_spelling_and_known_pairs_are_not_learned() {
    let mut s = default_app_settings(&env(), false);
    s.vocabulary = "Tauri, KWEN".into();
    let pair = MisheardReplacement::new("kwen", "qwen");
    assert!(learned_corrections_update(&s, &pair).is_none());
    s.vocabulary = String::new();
    s.commonly_misheard = vec![MisheardReplacement::new("KWEN", "qwen")];
    assert!(learned_corrections_update(&s, &pair).is_none());
    s.commonly_misheard = vec![MisheardReplacement::new("kwen", "Qwen")];
    assert_eq!(learned_corrections_update(&s, &pair).unwrap().len(), 2);
}

#[test]
fn learned_corrections_are_capped_oldest_first() {
    let mut s = default_app_settings(&env(), false);
    s.commonly_misheard = (0..MAX_LEARNED_CORRECTIONS)
        .map(|i| MisheardReplacement::new(&format!("w{i}"), &format!("r{i}")))
        .collect();
    let pair = MisheardReplacement::new("kwen", "qwen");
    let next = learned_corrections_update(&s, &pair).unwrap();
    assert_eq!(next.len(), MAX_LEARNED_CORRECTIONS);
    assert_eq!(next[0].wrong, "w1");
    assert_eq!(next[MAX_LEARNED_CORRECTIONS - 1].wrong, "kwen");
}

#[test]
fn hotkey_events_while_idle_and_capturing() {
    assert_eq!(on_idle_event(HotkeyEvent::Press, false), IdleAction::StartDictation { toggle: false });
    assert_eq!(
        on_idle_event(HotkeyEvent::ToggleDictation, false),
        IdleAction::StartDictation { toggle: true }
    );
    assert_eq!(on_idle_event(HotkeyEvent::Press, true), IdleAction::IgnoreWhilePaused);
    assert_eq!(on_idle_event(HotkeyEvent::QuickPasteOpen, true), IdleAction::OpenQuickPaste);
    assert_eq!(on_idle_event(HotkeyEvent::Release, false), IdleAction::HideOverlay);
    assert!(ends_capture(HotkeyEvent::Release));
    assert!(ends_capture(HotkeyEvent::ToggleDictation));
    assert!(!ends_capture(HotkeyEvent::Press));
    assert!(!ends_capture(HotkeyEvent::QuickPasteOpen));
}

#[test]
fn stt_engine_choice_and_reload() {
    assert_eq!(stt_kind("parakeet-tdt-0.6b-v3"), SttKind::Parakeet);
    assert_eq!(stt_kind("small.en"), SttKind::Whisper);
    assert!(stt_reload_needed(false, None, "ggml-tiny.en.bin"));
    assert!(stt_reload_needed(true, Some("ggml-tiny.en.bin"), "ggml-base.en.bin"));
    assert!(!stt_reload_needed(true, Some("ggml-tiny.en.bin"), "ggml-tiny.en.bin"));
}

#[test]
fn gates() {
    assert!(should_capture_ocr(false, true));
    assert!(!should_capture_ocr(true, true));
    assert!(should_observe_paste(true, "text", false, true));
    assert!(!should_observe_paste(true, "", false, true));
    assert!(!should_observe_paste(false, "text", false, true));
    assert!(still_learning(true, false));
    assert!(!still_learning(true, true));
    assert!(formatted_differs("hello", "Hello."));
    assert!(!formatted_differs("same", "same"));
    assert!(build_focused_text_reader(Platform::MacOs).is_some());
    assert!(build_focused_text_reader(Platform::Windows).is_none());
}

#[test]
fn cleanup_plans() {
    let long = "one two three four five six seven";
    assert!(matches!(plan_cleanup(Style::Raw, false, &LlmClientState::Ready, long, true), CleanupPlan::Passthrough));
    assert!(matches!(plan_cleanup(Style::Casual, true, &LlmClientState::Ready, long, true), CleanupPlan::Passthrough));
    assert!(matches!(plan_cleanup(Style::Casual, false, &LlmClientState::Disabled, long, true), CleanupPlan::Passthrough));
    assert!(matches!(plan_cleanup(Style::Casual, false, &LlmClientState::Ready, "too short", true), CleanupPlan::Passthrough));
    assert!(matches!(plan_cleanup(Style::Casual, false, &LlmClientState::Ready, long, true), CleanupPlan::Run));
    match plan_cleanup(
        Style::Casual,
        false,
        &LlmClientState::InitFailed(BoothError::Formatting("reqwest client: tls".into())),
        long,
        true,
    ) {
        CleanupPlan::PassthroughWithError(m) => assert_eq!(m, "formatting failed: reqwest client: tls"),
        _ => panic!("expected an error passthrough"),
    }
}

#[test]
fn cleanup_outcomes() {
    let ok = cleanup_outcome(
        "raw text",
        Ok(CleanupOutput { text: "Raw text.".into(), prompt_tokens: Some(9), completion_tokens: Some(2), elapsed_ms: 80 }),
    );
    assert_eq!(ok.text, "Raw text.");
    assert_eq!(ok.elapsed_ms, 80);
    assert!(ok.error.is_none());
    let failed = cleanup_outcome("raw text", Err(BoothError::Formatting("llm http: refused".into())));
    assert_eq!(failed.text, "raw text");
    assert_eq!(failed.elapsed_ms, 0);
    assert_eq!(failed.error.as_deref(), Some("formatting failed: llm http: refused"));
}

#[test]
fn stage_machine_walks_a_full_dictation() {
    let events = [
        DictationEvent::Pressed,
        DictationEvent::Released,
        DictationEvent::Transcribed { empty: false },
        DictationEvent::Cleaned,
        DictationEvent::Pasted,
    ];
    let mut stage = Stage::Idle;
    let mut names = Vec::new();
    let mut dones = 0;
    for e in events {
        let step = stage_after(stage, e);
        stage = step.next;
        names.push(stage_name(stage));
        if step.emits_done {
            dones += 1;
        }
    }
    assert_eq!(names, vec!["listening", "transcribing", "cleaning", "pasting", "idle"]);
    assert_eq!(dones, 1);
}

#[test]
fn stage_machine_empty_transcript_still_done() {
    let s1 = stage_after(Stage::Idle, DictationEvent::Pressed);
    let s2 = stage_after(s1.next, DictationEvent::Released);
    let s3 = stage_after(s2.next, DictationEvent::Transcribed { empty: true });
    assert_eq!(s3.next, Stage::Idle);
    assert!(s3.emits_done);
}

#[test]
fn stage_machine_failures_and_stray_events() {
    let f = stage_after(Stage::Listening, DictationEvent::AudioFailed);
    assert_eq!(f.next, Stage::Idle);
    assert!(!f.emits_done);
    assert_eq!(stage_after(Stage::Transcribing, DictationEvent::SttFailed).next, Stage::Idle);
    assert_eq!(stage_after(Stage::Transcribing, DictationEvent::ModelMissing).next, Stage::Idle);
    let stray = stage_after(Stage::Idle, DictationEvent::Released);
    assert_eq!(stray.next, Stage::Idle);
    assert!(!stray.emits_done);
    assert_eq!(stage_after(Stage::Cleaning, DictationEvent::Pressed).next, Stage::Cleaning);
}
