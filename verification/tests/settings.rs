use boothrflow::settings::{
    default_app_settings, normalize_whisper_model, validate_hotkey_bindings, validate_settings,
    whisper_model_file, HotkeySettings, SettingsEnv,
};

fn no_env() -> SettingsEnv {
    SettingsEnv {
        llm_disabled: false,
        llm_endpoint: None,
        llm_model: None,
        llm_api_key: None,
        history_disabled: false,
        embed_endpoint: None,
        embed_model: None,
        embed_api_key: None,
        whisper_prompt: None,
        whisper_model_file: None,
    }
}

#[test]
fn defaults_are_valid() {
    validate_settings(&default_app_settings(&no_env(), false)).unwrap();
}

#[test]
fn normalizes_whisper_model_file_names() {
    assert_eq!(normalize_whisper_model("ggml-small.en.bin"), "small.en");
    assert_eq!(whisper_model_file("large-v3-turbo"), "ggml-large-v3-turbo.bin");
}

#[test]
fn accepts_uat_push_to_talk_rebind() {
    let mut hotkeys = HotkeySettings::default_for(false);
    hotkeys.ptt = "Ctrl + Shift + Space".into();
    validate_hotkey_bindings(&hotkeys).unwrap();
}

#[test]
fn rejects_duplicate_hotkeys() {
    let mut hotkeys = HotkeySettings::default_for(false);
    hotkeys.toggle = "Ctrl + Cmd".into();
    assert!(validate_hotkey_bindings(&hotkeys).is_err());
}

#[test]
fn macos_defaults_are_valid() {
    validate_settings(&default_app_settings(&no_env(), true)).unwrap();
}

#[test]
fn duplicate_hotkeys_error_message() {
    let mut hotkeys = HotkeySettings::default_for(true);
    hotkeys.quick_paste = "space+alt+control".into();
    let err = validate_hotkey_bindings(&hotkeys).unwrap_err();
    assert_eq!(err.message(), "internal error: hotkey bindings must be unique");
}

#[test]
fn unknown_whisper_model_is_rejected() {
    let mut env = no_env();
    env.whisper_model_file = Some("ggml-gigantic.bin".into());
    let err = validate_settings(&default_app_settings(&env, false)).unwrap_err();
    assert_eq!(err.message(), "internal error: unsupported Whisper model: gigantic");
}

#[test]
fn single_modifier_ptt_is_rejected() {
    let mut hotkeys = HotkeySettings::default_for(false);
    hotkeys.ptt = "Ctrl".into();
    let err = validate_hotkey_bindings(&hotkeys).unwrap_err();
    assert_eq!(
        err.message(),
        "internal error: Push-to-talk hotkey needs at least one modifier plus another key"
    );
}

#[test]
fn available_models_round_trip_through_normalize() {
    for m in boothrflow::settings::whisper_models() {
        if !m.available {
            continue;
        }
        assert_eq!(boothrflow::settings::normalize_whisper_model(m.file), m.value);
        assert_eq!(boothrflow::settings::normalize_whisper_model(m.value), m.value);
        assert_eq!(boothrflow::settings::normalize_whisper_model(m.download_arg), m.value);
        assert_eq!(boothrflow::settings::normalize_whisper_model(&format!(" {} ", m.value)), m.value);
    }
}
