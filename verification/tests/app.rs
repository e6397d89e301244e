use boothrflow::devices::{mic_device, start_capture, stop_capture, CaptureState};
use boothrflow::commands::settings_pane_url;
use boothrflow::session::{done_after_paste, done_without_transcript, stage_name, CleanupOutcome, Stage};
use boothrflow::app_settings::{loaded_or_default, settings_path, AppSettings as LlmOnlySettings};
use boothrflow::bench::{variant_counts, Variant};
use boothrflow::commands::{
    download_outcome, download_target, download_url, llm_test_result, llm_test_task_failed,
    pane_url, paste_result, paste_text, whisper_model_name, MacPermissionPane,
};
use boothrflow::context::{context_from_macos, context_from_windows, context_from_windows_exe};
use boothrflow::error::BoothError;
use boothrflow::hotkey::{active_bindings, parse_chord, HotkeyEvent, Key, ListenerState};
use boothrflow::llama::{build_prompt, style_instructions};
use boothrflow::llm::CleanupRequest;
use boothrflow::ocr::{capture_focused_window_text, Platform};
use boothrflow::paths::{
    captures_dir, default_llama_model_path, default_model_path, default_models_dir,
    missing_model_error, require_file, variants_file_name, wav_path,
};
use boothrflow::pipeline::{
    clean_and_paste, context_for_exe, dictate_outcome, paste_keystroke_result, utterance_cleanup_request,
    Injector,
};
use boothrflow::llm::{CleanupOutput, LlmCleanup};
use std::cell::RefCell;
use boothrflow::secrets::{
    classify_probe, keychain_status, read_result, strip_from_json, use_keychain, write_action,
    KeychainCache, KeychainError, KeychainStatus, ProbeOutcome, WriteAction,
};
use boothrflow::settings::{default_app_settings, HotkeySettings, RuntimeSettings, SettingsEnv, Style};
use boothrflow::stt::{engine_name, is_too_short, num_cpus_clamped, online_config, skipped_result, transcript_result};
use boothrflow::tray::{
    dictation_hotkey_label, is_paused, menu_action, pause_menu_label, tooltip, tray_icon_kind,
    MenuAction, PauseFlag,
};

fn env() -> SettingsEnv {
    SettingsEnv {
        llm_disabled: false,
        llm_endpoint: None,
        llm_model: None,
        llm_api_key: None,
        history_disabled: false,
        embed_endpoint: None,
        embed_model: None,
        embed_api_key: None,
        whisper_prompt: None,
        whisper_model_file: None,
    }
}

#[test]
fn tray_pause_and_tooltips() {
    let mut flag = PauseFlag::new();
    assert!(!is_paused(&flag));
    assert!(flag.toggle());
    assert!(is_paused(&flag));
    assert_eq!(pause_menu_label(true), "Resume");
    assert!(!flag.toggle());
    assert_eq!(pause_menu_label(false), "Pause");
    assert_eq!(tooltip(true, true, "Ctrl + Win"), "boothrflow — paused");
    assert_eq!(tooltip(false, true, "Ctrl + Win"), "boothrflow — listening");
    assert_eq!(tooltip(false, false, "Ctrl + Win"), "boothrflow — idle (Ctrl + Win to dictate)");
    assert_eq!(menu_action("pause"), MenuAction::TogglePause);
    assert_eq!(menu_action("other"), MenuAction::Ignore);
    assert_eq!(tray_icon_kind(true), "macOS app");
    let rt = RuntimeSettings::new(default_app_settings(&env(), false));
    assert_eq!(dictation_hotkey_label(&rt), "Ctrl + Win");
}

#[test]
fn keychain_decisions() {
    assert_eq!(classify_probe(ProbeOutcome::Read), KeychainStatus::Available);
    assert_eq!(classify_probe(ProbeOutcome::ReadFailed(KeychainError::NoEntry)), KeychainStatus::Available);
    assert_eq!(classify_probe(ProbeOutcome::ReadFailed(KeychainError::Other)), KeychainStatus::Available);
    assert_eq!(
        classify_probe(ProbeOutcome::ReadFailed(KeychainError::PlatformFailure)),
        KeychainStatus::Unavailable
    );
    assert_eq!(classify_probe(ProbeOutcome::EntryFailed), KeychainStatus::Unavailable);
    let mut cache = KeychainCache::new();
    assert!(cache.needs_probe());
    assert_eq!(keychain_status(&mut cache, Some(ProbeOutcome::EntryFailed)), KeychainStatus::Unavailable);
    assert_eq!(keychain_status(&mut cache, Some(ProbeOutcome::Read)), KeychainStatus::Unavailable);
    assert_eq!(keychain_status(&mut cache, None), KeychainStatus::Unavailable);
    assert!(!cache.needs_probe());
    let mut fresh = KeychainCache::new();
    assert_eq!(keychain_status(&mut fresh, None), KeychainStatus::Unknown);
    assert_eq!(keychain_status(&mut fresh, Some(ProbeOutcome::Read)), KeychainStatus::Available);
    assert!(!use_keychain(KeychainStatus::Unavailable));
    assert!(use_keychain(KeychainStatus::Unknown));
    assert!(strip_from_json(KeychainStatus::Available));
    assert!(!strip_from_json(KeychainStatus::Unknown));
    assert_eq!(read_result(Ok("k".into())), Some("k".to_string()));
    assert_eq!(read_result(Err(KeychainError::NoEntry)), None);
    assert!(matches!(write_action(Some("sk-1")), WriteAction::Store(ref s) if s == "sk-1"));
    assert!(matches!(write_action(Some("")), WriteAction::Delete));
    assert!(matches!(write_action(None), WriteAction::Delete));
}

#[test]
fn paths_under_the_data_dir() {
    assert_eq!(settings_path("/data/app"), "/data/app/settings.json");
    assert_eq!(default_models_dir(Some("/home/u/.local/share")).unwrap(), "/home/u/.local/share/boothrflow/models");
    assert_eq!(default_models_dir(None), None);
    let rt = RuntimeSettings::new(default_app_settings(&env(), false));
    assert_eq!(
        default_model_path(&rt, Some("/d")).unwrap(),
        "/d/boothrflow/models/ggml-tiny.en.bin"
    );
    assert_eq!(
        default_llama_model_path(Some("/d")).unwrap(),
        "/d/boothrflow/models/qwen2.5-1.5b-instruct-q4_k_m.gguf"
    );
    assert_eq!(captures_dir(Some("/d")).unwrap(), "/d/boothrflow/captures");
    assert_eq!(
        captures_dir(None).unwrap_err().message(),
        "internal error: could not resolve user data dir"
    );
    assert_eq!(wav_path(Some("/d"), "a.wav").unwrap(), "/d/boothrflow/captures/a.wav");
    assert_eq!(settings_path("/data/app/"), "/data/app/settings.json");
    assert_eq!(default_models_dir(Some("")).unwrap(), "boothrflow/models");
    assert_eq!(captures_dir(Some("/")).unwrap(), "/boothrflow/captures");
    assert_eq!(variants_file_name("take1.wav"), "take1.variants.json");
    assert_eq!(variants_file_name("take1"), "take1.variants.json");
}

#[test]
fn model_file_errors() {
    let e = require_file("parakeet", "/nonexistent/parakeet", "encoder.onnx", false).unwrap_err();
    let msg = e.message();
    assert!(msg.contains("missing model file"), "got: {msg}");
    assert_eq!(
        msg,
        "internal error: parakeet: missing model file encoder.onnx (expected at /nonexistent/parakeet/encoder.onnx)"
    );
    assert_eq!(
        require_file("nemotron", "/m", "tokens.txt", true).unwrap(),
        "/m/tokens.txt"
    );
    match missing_model_error("/m/ggml-tiny.en.bin") {
        BoothError::Transcription(m) => {
            assert!(m.starts_with("Whisper model not found at /m/ggml-tiny.en.bin.\n"));
            assert!(m.contains("curl -L https://huggingface.co/ggerganov/whisper.cpp/resolve/main/ggml-tiny.en.bin -o \"/m/ggml-tiny.en.bin\""));
        }
        _ => panic!("expected a transcription error"),
    }
}

#[test]
fn commands_results() {
    assert_eq!(
        pane_url(MacPermissionPane::Microphone),
        "x-apple.systempreferences:com.apple.preference.security?Privacy_Microphone"
    );
    let (info, dest) = download_target("small", Some("/d")).unwrap();
    assert_eq!(info.file, "ggml-small.en.bin");
    assert_eq!(dest, "/d/boothrflow/models/ggml-small.en.bin");
    assert_eq!(
        download_target("nope", Some("/d")).unwrap_err().message(),
        "internal error: unsupported Whisper model: nope"
    );
    assert_eq!(
        download_target("small", None).unwrap_err().message(),
        "internal error: could not resolve user data directory"
    );
    assert_eq!(
        download_url("ggml-base.en.bin"),
        "https://huggingface.co/ggerganov/whisper.cpp/resolve/main/ggml-base.en.bin"
    );
    let done = download_outcome(&info, dest.clone(), true, true).unwrap();
    assert!(!done.already_present);
    assert_eq!(done.model, "small.en");
    assert_eq!(
        download_outcome(&info, dest, true, false).unwrap_err().message(),
        "internal error: model download failed for ggml-small.en.bin"
    );
    assert_eq!(paste_text(5, Some("hi".into())).unwrap(), "hi");
    assert_eq!(paste_text(-42, None).unwrap_err().message(), "internal error: history id -42 not found");
    assert_eq!(paste_text(1007, None).unwrap_err().message(), "internal error: history id 1007 not found");
    assert_eq!(paste_result(3, "héllo").len, 6);
    let ok = llm_test_result(12, Ok(()));
    assert!(ok.ok && ok.error.is_none() && ok.latency_ms == 12);
    let bad = llm_test_result(7, Err(BoothError::Formatting("llm http: refused".into())));
    assert_eq!(bad.error.as_deref(), Some("formatting failed: llm http: refused"));
    assert_eq!(llm_test_task_failed("panicked").error.as_deref(), Some("test task failed: panicked"));
    let rt = RuntimeSettings::new(default_app_settings(&env(), false));
    assert_eq!(whisper_model_name(&rt), "ggml-tiny.en");
    let mut big = default_app_settings(&env(), false);
    big.whisper.model = "large-v3-turbo".to_string();
    assert_eq!(whisper_model_name(&RuntimeSettings::new(big)), "ggml-large-v3-turbo");
}

#[test]
fn stt_helpers() {
    assert!(is_too_short(7_999));
    assert!(!is_too_short(8_000));
    let r = skipped_result();
    assert_eq!(r.text, "");
    assert_eq!(r.language.as_deref(), Some("en"));
    let t = transcript_result(&[" Hello".to_string(), " world. ".to_string()], 42);
    assert_eq!(t.text, "Hello world.");
    assert_eq!(t.duration_ms, 42);
    assert_eq!(engine_name("parakeet", Some("parakeet-tdt-0.6b-v3")), "parakeet:parakeet-tdt-0.6b-v3");
    assert_eq!(engine_name("nemotron", None), "nemotron:unknown");
    let c = online_config("e".into(), "d".into(), "j".into(), "t".into(), 4, false);
    assert_eq!(c.sample_rate, 16_000);
    assert_eq!(c.feature_dim, 80);
}

#[test]
fn nemotron_num_cpus_clamps_within_range() {
    for a in [None, Some(0), Some(1), Some(3), Some(64)] {
        let n = num_cpus_clamped(a);
        assert!((1..=4).contains(&n));
    }
}

#[test]
fn parakeet_num_cpus_clamps_within_range() {
    assert_eq!(num_cpus_clamped(None), 2);
    assert_eq!(num_cpus_clamped(Some(0)), 1);
    assert_eq!(num_cpus_clamped(Some(2)), 2);
    assert_eq!(num_cpus_clamped(Some(16)), 4);
}

#[test]
fn local_prompt_shape() {
    let req = CleanupRequest {
        raw_text: "hello there",
        style: Style::Formal,
        app_context: None,
        window_ocr: None,
        preferred_transcriptions: vec![],
        commonly_misheard: vec![],
    };
    let p = build_prompt(&req);
    assert!(p.starts_with("<|im_start|>system\nYou are a post-processor for voice dictation."));
    assert!(p.contains("\nStyle: formal"));
    assert!(p.ends_with("<|im_start|>user\nhello there<|im_end|>\n<|im_start|>assistant\n"));
    assert_eq!(style_instructions(&Style::Raw), "");
}

#[test]
fn ocr_is_unavailable_everywhere() {
    for (p, msg) in [
        (Platform::Other, "internal error: OCR is not available on this platform"),
        (Platform::Windows, "internal error: Windows OCR not yet wired — see docs/waves/wave-5-context-aware-cleanup.md"),
    ] {
        assert_eq!(capture_focused_window_text(None, p).unwrap_err().message(), msg);
    }
    assert!(capture_focused_window_text(None, Platform::MacOs).is_err());
}

#[test]
fn pipeline_helpers() {
    let c = context_for_exe(Some("slack.exe")).unwrap();
    assert_eq!(c.app_exe, "slack.exe");
    assert_eq!(c.app_name, "slack");
    assert!(context_for_exe(None).is_none());
    let o = dictate_outcome("raw".into(), None, 10, None);
    assert!(o.skipped_llm);
    assert_eq!(o.formatted, "raw");
    let o2 = dictate_outcome("raw".into(), Some("Raw.".into()), 10, Some("x".into()));
    assert!(!o2.skipped_llm);
    assert_eq!(o2.formatted, "Raw.");
}

#[test]
fn llm_only_settings_defaults() {
    let d = loaded_or_default(None);
    assert_eq!(d.llm.endpoint, "");
    assert!(!d.llm.disabled);
    let parsed = LlmOnlySettings::default();
    assert_eq!(loaded_or_default(Some(parsed)).llm.model, "");
}

fn variant(grade: Option<u8>) -> Variant {
    Variant {
        config_id: "c".into(),
        engine: "e".into(),
        llm_model: "m".into(),
        style: "casual".into(),
        raw: "r".into(),
        formatted: "f".into(),
        stt_ms: 1,
        llm_ms: 2,
        grade,
        notes: None,
    }
}

#[test]
fn bench_counts() {
    assert_eq!(variant_counts(&[variant(Some(3)), variant(None), variant(Some(5))]), (3, 2));
    assert_eq!(variant_counts(&[]), (0, 0));
}

#[test]
fn context_builders() {
    let c = context_from_macos(None, Some("Slack".into())).unwrap();
    assert_eq!(c.app_exe, "Slack");
    assert!(context_from_macos(None, None).is_none());
    let w = context_from_windows("Code.EXE", Some("main.rs".into())).unwrap();
    assert_eq!(w.app_name, "code");
    assert_eq!(w.app_exe, "code.exe");
    assert!(context_from_windows("", None).is_none());
    let t = context_from_windows_exe("notepad.exe.exe".into(), None).unwrap();
    assert_eq!(t.app_name, "notepad");
    let u = context_from_windows("", Some("Untitled".into())).unwrap();
    assert_eq!(u.app_exe, "");
    assert_eq!(u.app_name, "");
}

#[test]
fn hotkey_listener_edges() {
    let hk = HotkeySettings::default_for(false);
    let b = active_bindings(&hk);
    let mut st = ListenerState::new();
    assert_eq!(st.on_key(Key::ControlLeft, true, &b), None);
    assert_eq!(st.on_key(Key::MetaLeft, true, &b), Some(HotkeyEvent::Press));
    assert_eq!(st.on_key(Key::MetaLeft, true, &b), None);
    assert_eq!(st.on_key(Key::ControlLeft, false, &b), Some(HotkeyEvent::Release));
    assert!(parse_chord("Ctrl + Shift + K").is_some());
    assert!(parse_chord("Ctrl + NoSuchKey").is_none());
}

#[test]
fn capture_list_is_newest_first_on_examples() {
    let keys = vec![
        ("2026-05-01T10:00:00Z".to_string(), "a.wav".to_string()),
        ("2026-05-03T09:00:00Z".to_string(), "b.wav".to_string()),
        ("".to_string(), "z.wav".to_string()),
        ("2026-05-03T09:00:00Z".to_string(), "c.wav".to_string()),
    ];
    assert_eq!(boothrflow::bench::newest_first(&keys), vec![3, 1, 0, 2]);
    assert!(boothrflow::bench::newest_first(&[]).is_empty());
}

#[test]
fn reordered_chords_clash() {
    let mut hotkeys = HotkeySettings::default_for(true);
    hotkeys.toggle = "Shift + Ctrl + K".into();
    hotkeys.quick_paste = "ctrl+k+shift".into();
    let err = boothrflow::settings::validate_hotkey_bindings(&hotkeys).unwrap_err();
    assert_eq!(err.message(), "internal error: hotkey bindings must be unique");
}

#[test]
fn resync_from_os_flags_releases_missed_keys() {
    let hk = HotkeySettings::default_for(true);
    let b = active_bindings(&hk);
    let mut st = ListenerState::new();
    st.on_key(Key::ControlLeft, true, &b);
    assert_eq!(st.on_key(Key::MetaLeft, true, &b), Some(HotkeyEvent::Press));
    let ctrl_only = boothrflow::hotkey::FLAG_CONTROL;
    assert_eq!(st.resync_from_flags(ctrl_only, &b), Some(HotkeyEvent::Release));
    let both = boothrflow::hotkey::FLAG_CONTROL | boothrflow::hotkey::FLAG_COMMAND;
    assert_eq!(st.resync_from_flags(both, &b), Some(HotkeyEvent::Press));
    assert_eq!(st.resync_from_flags(both, &b), None);
}

#[test]
fn paste_keystroke_errors() {
    assert!(paste_keystroke_result(Ok(()), Ok(())).is_ok());
    assert_eq!(
        paste_keystroke_result(Err("busy".into()), Err("stuck".into())).unwrap_err().message(),
        "injection failed: click v: busy"
    );
    assert_eq!(
        paste_keystroke_result(Ok(()), Err("stuck".into())).unwrap_err().message(),
        "injection failed: release modifier: stuck"
    );
}

#[test]
fn device_entries_and_capture_state() {
    let d = mic_device("Shure MV7".into(), Some("Shure MV7"), Some((48_000, 1)));
    assert!(d.is_default);
    assert_eq!(d.default_sample_rate, 48_000);
    let e = mic_device("USB".into(), Some("Shure MV7"), None);
    assert!(!e.is_default);
    assert_eq!((e.default_sample_rate, e.channels), (0, 0));
    let mut st = CaptureState { capturing: false };
    assert!(start_capture(&mut st).is_ok());
    assert_eq!(start_capture(&mut st).unwrap_err().message(), "audio capture failed: already capturing");
    stop_capture(&mut st);
    assert!(start_capture(&mut st).is_ok());
}

#[test]
fn pane_urls_by_platform_and_stats() {
    assert_eq!(settings_pane_url(MacPermissionPane::ScreenRecording, Platform::Windows), None);
    assert_eq!(
        settings_pane_url(MacPermissionPane::ScreenRecording, Platform::MacOs),
        Some("x-apple.systempreferences:com.apple.preference.security?Privacy_ScreenCapture")
    );
    let s = boothrflow::history::history_stats(10, 4, "/d/history.db".into(), Some(("e".into(), "m".into())));
    assert_eq!(s.embed_model.as_deref(), Some("m"));
    let n = boothrflow::history::history_stats(0, 0, "/d/history.db".into(), None);
    assert!(n.embed_endpoint.is_none());
}

#[test]
fn stages_and_done_payloads() {
    assert_eq!(stage_name(Stage::Transcribing), "transcribing");
    assert_eq!(stage_name(Stage::Idle), "idle");
    let d = done_without_transcript(900, 120, 1_100);
    assert_eq!(d.formatted, "");
    assert_eq!((d.llm_ms, d.paste_ms), (0, 0));
    let o = CleanupOutcome::passthrough("hello");
    let done = done_after_paste(o, 900, 120, 30, 1_200);
    assert_eq!(done.formatted, "hello");
    assert_eq!(done.paste_ms, 30);
}

struct DropFillerLlm {
    seen: RefCell<Vec<(String, Option<String>)>>,
    fail: bool,
}

impl LlmCleanup for DropFillerLlm {
    fn cleanup(&self, request: CleanupRequest) -> Result<CleanupOutput, BoothError> {
        self.seen.borrow_mut().push((
            request.raw_text.to_string(),
            request.app_context.as_ref().map(|c| c.app_name.clone()),
        ));
        if self.fail {
            return Err(BoothError::Formatting("llm down".into()));
        }
        let text = request.raw_text.split_whitespace().filter(|w| *w != "uh").collect::<Vec<_>>().join(" ");
        Ok(CleanupOutput { text, prompt_tokens: None, completion_tokens: None, elapsed_ms: 0 })
    }

    fn name(&self) -> &str {
        "drop-filler"
    }
}

struct RecordingInjector {
    calls: RefCell<Vec<String>>,
    fail: bool,
}

impl Injector for RecordingInjector {
    fn inject(&self, text: &str) -> Result<(), BoothError> {
        self.calls.borrow_mut().push(text.to_string());
        if self.fail {
            Err(BoothError::Injection("no focus".into()))
        } else {
            Ok(())
        }
    }

    fn name(&self) -> &str {
        "recording"
    }
}

#[test]
fn clean_and_paste_cleans_long_transcripts() {
    let llm = DropFillerLlm { seen: RefCell::new(vec![]), fail: false };
    let inj = RecordingInjector { calls: RefCell::new(vec![]), fail: false };
    let raw = "uh hello world this is a test";
    let r = clean_and_paste(|q| llm.cleanup(q), |t: String| inj.inject(&t), raw, Some("slack.exe"), Style::Casual, true).unwrap();
    assert_eq!(r.as_deref(), Some("hello world this is a test"));
    assert_eq!(*inj.calls.borrow(), vec!["hello world this is a test".to_string()]);
    assert_eq!(*llm.seen.borrow(), vec![(raw.to_string(), Some("slack".to_string()))]);
    let o = dictate_outcome(raw.to_string(), r, 5, Some("slack.exe".into()));
    assert!(!o.skipped_llm);
    assert!(!o.formatted.contains("uh"));
}

#[test]
fn clean_and_paste_skips_short_or_disabled() {
    let llm = DropFillerLlm { seen: RefCell::new(vec![]), fail: false };
    let inj = RecordingInjector { calls: RefCell::new(vec![]), fail: false };
    assert_eq!(clean_and_paste(|q| llm.cleanup(q), |t: String| inj.inject(&t), "uh hi", None, Style::Casual, true).unwrap(), None);
    let long = "uh hello world this is a test";
    assert_eq!(clean_and_paste(|q| llm.cleanup(q), |t: String| inj.inject(&t), long, None, Style::Casual, false).unwrap(), None);
    assert!(llm.seen.borrow().is_empty());
    assert_eq!(*inj.calls.borrow(), vec!["uh hi".to_string(), long.to_string()]);
}

#[test]
fn clean_and_paste_passes_errors_on() {
    let llm = DropFillerLlm { seen: RefCell::new(vec![]), fail: true };
    let inj = RecordingInjector { calls: RefCell::new(vec![]), fail: false };
    let e = clean_and_paste(|q| llm.cleanup(q), |t: String| inj.inject(&t), "uh hello world this is a test", None, Style::Casual, true).unwrap_err();
    assert!(matches!(e, BoothError::Formatting(_)));
    assert!(inj.calls.borrow().is_empty());
    let ok_llm = DropFillerLlm { seen: RefCell::new(vec![]), fail: false };
    let bad_inj = RecordingInjector { calls: RefCell::new(vec![]), fail: true };
    let e2 = clean_and_paste(|q| ok_llm.cleanup(q), |t: String| bad_inj.inject(&t), "hi", None, Style::Casual, true).unwrap_err();
    assert!(matches!(e2, BoothError::Injection(_)));
}

#[test]
fn utterance_request_and_paste_text() {
    let r = utterance_cleanup_request("some words", Style::Formal, Some("code.exe"));
    assert_eq!(r.raw_text, "some words");
    assert_eq!(r.app_context.as_ref().unwrap().app_name, "code");
    assert!(r.window_ocr.is_none());
    assert!(r.preferred_transcriptions.is_empty());
}
