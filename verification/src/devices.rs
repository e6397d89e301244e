//! Microphone selection: which input device a dictation records from.
//!
//! The device list itself comes from the audio host; this module only
//! classifies device names and decides, from the settings, which one to
//! pin (`None` means the system default).
use vstd::prelude::*;
use crate::settings::AppSettings;
use crate::streaming::str_views;
use crate::text::{
    chars_to_string, contains_chars, contains_seq, lower_chars, lower_seq, str_chars, trim_chars,
    trim_spec,
};

verus! {

/// One input device as the settings screen lists it.
#[derive(Debug, Clone)]
pub struct MicDevice {
    pub name: String,
    pub default_sample_rate: u32,
    pub channels: u16,
    pub is_default: bool,
}

/// Name fragments (matched against the ASCII-lowercased name) that mark a
/// Bluetooth headset or microphone.
pub open spec fn bluetooth_name_spec(name: Seq<char>) -> bool {
    let lc = lower_seq(name);
    ||| contains_seq(lc, "airpods"@)
    ||| contains_seq(lc, "beats"@)
    ||| contains_seq(lc, "bluetooth"@)
    ||| contains_seq(lc, "headset"@)
    ||| contains_seq(lc, "sony wh-"@)
    ||| contains_seq(lc, "sony wf-"@)
    ||| contains_seq(lc, "bose quietcomfort"@)
    ||| contains_seq(lc, "powerbeats"@)
}

/// Name fragments that mark a laptop's built-in microphone.
pub open spec fn builtin_name_spec(name: Seq<char>) -> bool {
    let lc = lower_seq(name);
    ||| contains_seq(lc, "built-in"@)
    ||| contains_seq(lc, "macbook"@)
    ||| contains_seq(lc, "internal microphone"@)
}

fn contains_lit(hay: &Vec<char>, lit: &str) -> (b: bool)
    ensures
        b == contains_seq(hay@, lit@),
{
    let n = str_chars(lit);
    contains_chars(hay, &n)
}

/// Does this device name look like a Bluetooth headset or microphone?
pub fn is_bluetooth_input(name: &str) -> (b: bool)
    ensures
        b == bluetooth_name_spec(name@),
{
    let v = str_chars(name);
    let lc = lower_chars(&v);
    contains_lit(&lc, "airpods") || contains_lit(&lc, "beats") || contains_lit(&lc, "bluetooth")
        || contains_lit(&lc, "headset") || contains_lit(&lc, "sony wh-") || contains_lit(
        &lc,
        "sony wf-",
    ) || contains_lit(&lc, "bose quietcomfort") || contains_lit(&lc, "powerbeats")
}

/// Does this device name look like a laptop's built-in microphone?
pub fn is_builtin_input(name: &str) -> (b: bool)
    ensures
        b == builtin_name_spec(name@),
{
    let v = str_chars(name);
    let lc = lower_chars(&v);
    contains_lit(&lc, "built-in") || contains_lit(&lc, "macbook") || contains_lit(
        &lc,
        "internal microphone",
    )
}

/// The first name in `names` that looks built-in.
pub open spec fn first_builtin(names: Seq<Seq<char>>) -> Option<Seq<char>>
    decreases names.len(),
{
    if names.len() == 0 {
        None
    } else if builtin_name_spec(names[0]) {
        Some(names[0])
    } else {
        first_builtin(names.drop_first())
    }
}

/// With a Bluetooth system default, the first built-in microphone among
/// `inputs`; `None` when the default is not Bluetooth (or unknown) or no
/// built-in microphone is listed.
pub open spec fn builtin_fallback_spec(default_name: Option<Seq<char>>, inputs: Seq<Seq<char>>) -> Option<Seq<char>> {
    match default_name {
        Some(d) => if bluetooth_name_spec(d) {
            first_builtin(inputs)
        } else {
            None
        },
        None => None,
    }
}

/// Which device to pin: a non-blank override from the settings (trimmed);
/// otherwise, when the settings prefer the built-in microphone, the
/// built-in fallback; otherwise the system default (`None`).
pub open spec fn resolve_device_spec(
    override_name: Seq<char>,
    prefer_builtin: bool,
    default_name: Option<Seq<char>>,
    inputs: Seq<Seq<char>>,
) -> Option<Seq<char>> {
    if trim_spec(override_name).len() > 0 {
        Some(trim_spec(override_name))
    } else if !prefer_builtin {
        None
    } else {
        builtin_fallback_spec(default_name, inputs)
    }
}

pub open spec fn opt_str_view(o: Option<&str>) -> Option<Seq<char>> {
    match o {
        Some(s) => Some(s@),
        None => None,
    }
}

pub open spec fn opt_string_view(o: Option<String>) -> Option<Seq<char>> {
    match o {
        Some(s) => Some(s@),
        None => None,
    }
}

proof fn lemma_first_builtin_step(names: Seq<Seq<char>>, i: int)
    requires
        0 <= i <= names.len(),
        forall|j: int| 0 <= j < i ==> !builtin_name_spec(#[trigger] names[j]),
    ensures
        first_builtin(names) == first_builtin(names.subrange(i, names.len() as int)),
    decreases i,
{
    if i > 0 {
        assert(!builtin_name_spec(names[0]));
        let rest = names.drop_first();
        assert forall|j: int| 0 <= j < i - 1 implies !builtin_name_spec(#[trigger] rest[j]) by {
            assert(rest[j] == names[j + 1]);
        }
        lemma_first_builtin_step(rest, i - 1);
        assert(rest.subrange(i - 1, rest.len() as int) == names.subrange(i, names.len() as int));
    } else {
        assert(names.subrange(0, names.len() as int) == names);
    }
}

/// With a Bluetooth system default, switch to the first built-in
/// microphone among `inputs`.
pub fn pick_builtin_when_default_is_bluetooth(default_name: Option<&str>, inputs: &[String]) -> (r: Option<String>)
    ensures
        opt_string_view(r) == builtin_fallback_spec(opt_str_view(default_name), str_views(inputs@)),
{
    let d = match default_name {
        Some(d) => d,
        None => return None,
    };
    if !is_bluetooth_input(d) {
        return None;
    }
    let ghost names = str_views(inputs@);
    let mut i: usize = 0;
    while i < inputs.len()
        invariant
            i <= inputs.len(),
            names == str_views(inputs@),
            default_name == Some(d),
            bluetooth_name_spec(d@),
            forall|j: int| 0 <= j < i ==> !builtin_name_spec(#[trigger] names[j]),
        decreases inputs.len() - i,
    {
        if is_builtin_input(inputs[i].as_str()) {
            proof {
                lemma_first_builtin_step(names, i as int);
                let sub = names.subrange(i as int, names.len() as int);
                assert(sub[0] == names[i as int]);
                assert(names[i as int] == inputs@[i as int]@);
            }
            return Some(inputs[i].clone());
        }
        i = i + 1;
    }
    proof {
        lemma_first_builtin_step(names, names.len() as int);
        assert(names.subrange(names.len() as int, names.len() as int).len() == 0);
    }
    None
}

/// The device a dictation should record from, given the settings, the
/// system default input (if it has a name) and the names of all inputs.
/// `None` means the system default.
pub fn resolve_input_device_from_settings(
    settings: &AppSettings,
    default_name: Option<&str>,
    inputs: &[String],
) -> (r: Option<String>)
    ensures
        opt_string_view(r) == resolve_device_spec(
            settings.audio_input_device@,
            settings.prefer_builtin_mic_with_bluetooth,
            opt_str_view(default_name),
            str_views(inputs@),
        ),
{
    let v = str_chars(settings.audio_input_device.as_str());
    let t = trim_chars(&v);
    if t.len() > 0 {
        return Some(chars_to_string(&t));
    }
    if !settings.prefer_builtin_mic_with_bluetooth {
        return None;
    }
    pick_builtin_when_default_is_bluetooth(default_name, inputs)
}

/// One entry of the device list: the device's default configuration
/// (sample rate, channels), zeros when the device reports none, and
/// whether it is the system default input.
pub fn mic_device(name: String, default_name: Option<&str>, config: Option<(u32, u16)>) -> (d: MicDevice)
    ensures
        d.name == name,
        d.is_default == (default_name matches Some(n) && n@ == name@),
        d.default_sample_rate == match config {
            Some(c) => c.0,
            None => 0,
        },
        d.channels == match config {
            Some(c) => c.1,
            None => 0,
        },
{
    let is_default = match default_name {
        Some(n) => {
            let a = str_chars(n);
            let b = str_chars(name.as_str());
            crate::learning::seq_eq_chars(&a, &b)
        },
        None => false,
    };
    let (rate, channels) = match config {
        Some(c) => c,
        None => (0, 0),
    };
    MicDevice { name, default_sample_rate: rate, channels, is_default }
}

/// Whether the capture source is running.
#[derive(Debug)]
pub struct CaptureState {
    pub capturing: bool,
}

/// Starting a capture that is already running is an error; otherwise the
/// source becomes busy.
pub fn start_capture(state: &mut CaptureState) -> (r: Result<(), crate::error::BoothError>)
    ensures
        old(state).capturing ==> (r matches Err(crate::error::BoothError::AudioCapture(m)) && m@
            == "already capturing"@ && final(state).capturing),
        !old(state).capturing ==> (r is Ok && final(state).capturing),
{
    if state.capturing {
        return Err(crate::error::BoothError::AudioCapture("already capturing".to_string()));
    }
    state.capturing = true;
    Ok(())
}

/// Stopping always succeeds and leaves the source idle.
pub fn stop_capture(state: &mut CaptureState)
    ensures
        !final(state).capturing,
{
    state.capturing = false;
}

} // verus!
