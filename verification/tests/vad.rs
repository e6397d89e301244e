use boothrflow::vad::{EndpointDetector, EndpointEvent};

// Scores of 0.7 and 0.8 reach the 0.5 threshold; 0.1 does not.
const SPEECH: bool = true;
const SILENCE: bool = false;

#[test]
fn started_event_on_first_speech() {
    let mut ep = EndpointDetector::new(500);
    let t0 = 1_000;
    assert_eq!(ep.observe(SILENCE, t0), None);
    assert_eq!(ep.observe(SPEECH, t0), Some(EndpointEvent::SpeechStarted));
    assert_eq!(ep.observe(SPEECH, t0), None);
}

#[test]
fn ended_event_after_hangover() {
    let mut ep = EndpointDetector::new(500);
    let t0 = 1_000;
    ep.observe(SPEECH, t0);
    assert_eq!(ep.observe(SILENCE, t0 + 100), None);
    assert_eq!(ep.observe(SILENCE, t0 + 300), None);
    assert_eq!(ep.observe(SILENCE, t0 + 700), Some(EndpointEvent::SpeechEnded));
}

#[test]
fn brief_dip_below_threshold_does_not_end() {
    let mut ep = EndpointDetector::new(500);
    let t0 = 1_000;
    ep.observe(SPEECH, t0);
    ep.observe(SILENCE, t0 + 100);
    assert_eq!(ep.observe(SPEECH, t0 + 200), None);
    assert!(ep.is_in_speech());
}

#[test]
fn reset_clears_state() {
    let mut ep = EndpointDetector::new(500);
    ep.observe(SPEECH, 1_000);
    assert!(ep.is_in_speech());
    ep.reset();
    assert!(!ep.is_in_speech());
}

#[test]
fn dictation_default_uses_700ms_hangover() {
    let mut ep = EndpointDetector::default_for_dictation();
    ep.observe(SPEECH, 0);
    assert_eq!(ep.observe(SILENCE, 699), None);
    assert_eq!(ep.observe(SILENCE, 700), Some(EndpointEvent::SpeechEnded));
    assert_eq!(ep.observe(SILENCE, 2_000), None);
    assert_eq!(ep.observe(SPEECH, 2_100), Some(EndpointEvent::SpeechStarted));
}

#[test]
fn clock_going_backwards_counts_as_no_time() {
    let mut ep = EndpointDetector::new(100);
    ep.observe(SPEECH, 5_000);
    assert_eq!(ep.observe(SILENCE, 4_000), None);
    assert!(ep.is_in_speech());
}
