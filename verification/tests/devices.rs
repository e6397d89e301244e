use boothrflow::captures::{enabled, filename_stem};
use boothrflow::devices::{
    is_bluetooth_input, is_builtin_input, pick_builtin_when_default_is_bluetooth,
    resolve_input_device_from_settings,
};
use boothrflow::settings::{default_app_settings, SettingsEnv};

#[test]
fn classifies_bluetooth_names() {
    assert!(is_bluetooth_input("AirPods Max"));
    assert!(is_bluetooth_input("Eric's AirPods Pro"));
    assert!(is_bluetooth_input("Sony WH-1000XM5"));
    assert!(is_bluetooth_input("Beats Studio Buds"));
    assert!(is_bluetooth_input("Bluetooth Headset"));
    assert!(is_bluetooth_input("Bose QuietComfort 35"));
}

#[test]
fn does_not_classify_wired_or_builtin_as_bluetooth() {
    assert!(!is_bluetooth_input("MacBook Pro Microphone"));
    assert!(!is_bluetooth_input("Built-in Microphone"));
    assert!(!is_bluetooth_input("Shure MV7"));
    assert!(!is_bluetooth_input("USB Audio Device"));
}

#[test]
fn classifies_builtin_names() {
    assert!(is_builtin_input("MacBook Pro Microphone"));
    assert!(is_builtin_input("MacBook Air Microphone"));
    assert!(is_builtin_input("Built-in Microphone"));
}

#[test]
fn does_not_classify_external_as_builtin() {
    assert!(!is_builtin_input("AirPods Max"));
    assert!(!is_builtin_input("USB Audio Device"));
    assert!(!is_builtin_input("Shure MV7"));
}

#[test]
fn filename_stem_strips_unsafe_chars() {
    let stem = filename_stem("2026-05-03T18:35:48Z", Some("com.apple.TextEdit"));
    assert_eq!(stem, "2026-05-03T18-35-48Z-TextEdit");

    let stem_no_app = filename_stem("2026-05-03T18-35-48Z", None);
    assert_eq!(stem_no_app, "2026-05-03T18-35-48Z-na");

    let stem_messy = filename_stem("2026-05-03T18:35:48Z", Some("Slack/Beta!"));
    assert!(stem_messy.starts_with("2026-05-03T18-35-48Z-"));
    assert!(!stem_messy.contains('!'));
    assert!(!stem_messy.contains('/'));
}

#[test]
fn capture_flag_values() {
    assert!(!enabled(None));
    assert!(!enabled(Some("0")));
    assert!(enabled(Some("1")));
    assert!(enabled(Some("true")));
    assert!(enabled(Some("yes")));
    assert!(!enabled(Some("TRUE")));
}

fn env() -> SettingsEnv {
    SettingsEnv {
        llm_disabled: false,
        llm_endpoint: None,
        llm_model: None,
        llm_api_key: None,
        history_disabled: false,
        embed_endpoint: None,
        embed_model: None,
        embed_api_key: None,
        whisper_prompt: None,
        whisper_model_file: None,
    }
}

fn names(v: &[&str]) -> Vec<String> {
    v.iter().map(|s| s.to_string()).collect()
}

#[test]
fn bluetooth_default_switches_to_builtin() {
    let inputs = names(&["AirPods Pro", "USB Audio Device", "MacBook Pro Microphone"]);
    assert_eq!(
        pick_builtin_when_default_is_bluetooth(Some("AirPods Pro"), &inputs),
        Some("MacBook Pro Microphone".to_string())
    );
    assert_eq!(pick_builtin_when_default_is_bluetooth(Some("USB Audio Device"), &inputs), None);
    assert_eq!(pick_builtin_when_default_is_bluetooth(None, &inputs), None);
    let no_builtin = names(&["AirPods Pro", "USB Audio Device"]);
    assert_eq!(pick_builtin_when_default_is_bluetooth(Some("AirPods Pro"), &no_builtin), None);
}

#[test]
fn settings_override_wins_and_is_trimmed() {
    let mut s = default_app_settings(&env(), true);
    s.audio_input_device = "  Shure MV7 ".into();
    let inputs = names(&["AirPods Pro", "MacBook Pro Microphone"]);
    assert_eq!(
        resolve_input_device_from_settings(&s, Some("AirPods Pro"), &inputs),
        Some("Shure MV7".to_string())
    );
    s.audio_input_device = "   ".into();
    s.prefer_builtin_mic_with_bluetooth = false;
    assert_eq!(resolve_input_device_from_settings(&s, Some("AirPods Pro"), &inputs), None);
    s.prefer_builtin_mic_with_bluetooth = true;
    assert_eq!(
        resolve_input_device_from_settings(&s, Some("AirPods Pro"), &inputs),
        Some("MacBook Pro Microphone".to_string())
    );
}
