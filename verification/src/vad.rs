//! Utterance boundaries from voice-activity scores: a frame is speech when
//! its score reaches the threshold (the caller makes that comparison), and
//! speech ends after a stretch of silence as long as the hangover.
use vstd::prelude::*;

verus! {

/// A transition of the detector.
#[derive(Debug, Clone, Copy, PartialEq, Eq, Structural)]
pub enum EndpointEvent {
    SpeechStarted,
    SpeechEnded,
}

/// Endpoint detector over millisecond timestamps.
#[derive(Debug)]
pub struct EndpointDetector {
    pub silence_hangover_ms: u64,
    pub in_speech: bool,
    pub last_speech_ms: Option<u64>,
}

/// Time from `last` to `now`, zero when `now` is earlier (a monotonic
/// clock's saturating difference).
pub open spec fn elapsed(last: u64, now: u64) -> int {
    if now >= last {
        now - last
    } else {
        0
    }
}

/// One observation: a speech frame starts speech (or extends it); a
/// silent frame ends speech once the hangover has passed since the last
/// speech frame. Events come only on transitions.
pub open spec fn observe_spec(d: EndpointDetector, above: bool, now_ms: u64) -> (EndpointDetector, Option<EndpointEvent>) {
    if above {
        let next = EndpointDetector { in_speech: true, last_speech_ms: Some(now_ms), ..d };
        (next, if d.in_speech { None } else { Some(EndpointEvent::SpeechStarted) })
    } else if d.in_speech {
        match d.last_speech_ms {
            Some(last) => if elapsed(last, now_ms) >= d.silence_hangover_ms {
                (EndpointDetector { in_speech: false, ..d }, Some(EndpointEvent::SpeechEnded))
            } else {
                (d, None)
            },
            None => (d, None),
        }
    } else {
        (d, None)
    }
}

impl EndpointDetector {
    /// `silence_hangover_ms`: how long below the threshold before speech
    /// ends.
    pub fn new(silence_hangover_ms: u64) -> (d: EndpointDetector)
        ensures
            d.silence_hangover_ms == silence_hangover_ms,
            !d.in_speech,
            d.last_speech_ms is None,
    {
        EndpointDetector { silence_hangover_ms, in_speech: false, last_speech_ms: None }
    }

    /// 700 ms of hangover: brief pauses between words pass, real silence
    /// ends the utterance.
    pub fn default_for_dictation() -> (d: EndpointDetector)
        ensures
            d.silence_hangover_ms == 700,
            !d.in_speech,
            d.last_speech_ms is None,
    {
        EndpointDetector::new(700)
    }

    pub fn is_in_speech(&self) -> (b: bool)
        ensures
            b == self.in_speech,
    {
        self.in_speech
    }

    /// Processes one frame, `above` telling whether its score reached the
    /// threshold, stamped `now_ms`.
    pub fn observe(&mut self, above: bool, now_ms: u64) -> (ev: Option<EndpointEvent>)
        ensures
            (*final(self), ev) == observe_spec(*old(self), above, now_ms),
    {
        if above {
            self.last_speech_ms = Some(now_ms);
            if !self.in_speech {
                self.in_speech = true;
                return Some(EndpointEvent::SpeechStarted);
            }
        } else if self.in_speech {
            if let Some(last) = self.last_speech_ms {
                let gap = if now_ms >= last { now_ms - last } else { 0 };
                if gap >= self.silence_hangover_ms {
                    self.in_speech = false;
                    return Some(EndpointEvent::SpeechEnded);
                }
            }
        }
        None
    }

    pub fn reset(&mut self)
        ensures
            !final(self).in_speech,
            final(self).last_speech_ms is None,
            final(self).silence_hangover_ms == old(self).silence_hangover_ms,
    {
        self.in_speech = false;
        self.last_speech_ms = None;
    }
}

/// Events alternate: `SpeechStarted` comes only out of silence and leaves
/// the detector in speech; `SpeechEnded` comes only out of speech and
/// leaves it silent; with no event the speech flag does not change.
pub proof fn events_alternate(d: EndpointDetector, above: bool, now_ms: u64)
    ensures
        ({
            let (next, ev) = observe_spec(d, above, now_ms);
            &&& ev == Some(EndpointEvent::SpeechStarted) ==> !d.in_speech && next.in_speech
            &&& ev == Some(EndpointEvent::SpeechEnded) ==> d.in_speech && !next.in_speech
            &&& ev is None ==> next.in_speech == d.in_speech
        }),
{
}

/// Silence shorter than the hangover since the last speech frame never
/// ends an utterance.
pub proof fn short_dip_keeps_speech(d: EndpointDetector, now_ms: u64)
    requires
        d.in_speech,
        d.last_speech_ms matches Some(last) && elapsed(last, now_ms) < d.silence_hangover_ms,
    ensures
        observe_spec(d, false, now_ms) == (d, Option::<EndpointEvent>::None),
{
}

/// Every speech frame records its time, whether or not speech was already
/// going on, and leaves the detector in speech with the same hangover.
pub proof fn speech_frames_record_their_time(d: EndpointDetector, now_ms: u64)
    ensures
        observe_spec(d, true, now_ms).0.last_speech_ms == Some(now_ms),
        observe_spec(d, true, now_ms).0.in_speech,
        observe_spec(d, true, now_ms).0.silence_hangover_ms == d.silence_hangover_ms,
{
}

/// Silence ends speech only once the hangover has passed since the most
/// recent speech frame: after a speech frame at `t1`, a silent frame at
/// `t2` ends the utterance exactly when at least the hangover separates
/// them.
pub proof fn speech_ends_a_hangover_after_the_last_speech_frame(d: EndpointDetector, t1: u64, t2: u64)
    ensures
        ({
            let d1 = observe_spec(d, true, t1).0;
            observe_spec(d1, false, t2).1 == Some(EndpointEvent::SpeechEnded) <==> elapsed(t1, t2)
                >= d.silence_hangover_ms
        }),
{
}

} // verus!
