//! Speech-to-text results and the engine-independent parts of the
//! engines: too-short audio, how a transcript is assembled, thread counts
//! and the recognizer configuration. Inference itself is the caller's.
use vstd::prelude::*;
use crate::text::{chars_to_string, push_chars, str_chars, trim_chars, trim_spec};

verus! {

/// One transcription.
#[derive(Debug)]
pub struct SttResult {
    pub text: String,
    pub language: Option<String>,
    pub duration_ms: u64,
}

/// Half a second at 16 kHz: shorter audio is not worth a model call.
pub const MIN_AUDIO_SAMPLES: usize = 8000;

/// Sample rate of every speech model in use.
pub const SAMPLE_RATE: i32 = 16000;

/// Mel filterbank size of the transducer models.
pub const FEATURE_DIM: i32 = 80;

/// Audio shorter than [`MIN_AUDIO_SAMPLES`] is skipped.
pub fn is_too_short(samples: usize) -> (b: bool)
    ensures
        b == (samples < MIN_AUDIO_SAMPLES),
{
    samples < MIN_AUDIO_SAMPLES
}

fn english() -> (s: Option<String>)
    ensures
        s matches Some(t) && t@ == "en"@,
{
    Some("en".to_string())
}

/// The result for skipped audio: empty English text, no time spent.
pub fn skipped_result() -> (r: SttResult)
    ensures
        r.text@.len() == 0,
        r.language matches Some(l) && l@ == "en"@,
        r.duration_ms == 0,
{
    SttResult { text: String::new(), language: english(), duration_ms: 0 }
}

pub open spec fn concat_all(parts: Seq<Seq<char>>) -> Seq<char>
    decreases parts.len(),
{
    if parts.len() == 0 {
        Seq::empty()
    } else {
        concat_all(parts.drop_last()) + parts.last()
    }
}

/// The transcript of a run: the segments' texts joined and trimmed, in
/// English.
pub fn transcript_result(segments: &[String], duration_ms: u64) -> (r: SttResult)
    ensures
        r.text@ == trim_spec(concat_all(segments@.map_values(|s: String| s@))),
        r.language matches Some(l) && l@ == "en"@,
        r.duration_ms == duration_ms,
{
    let ghost parts = segments@.map_values(|s: String| s@);
    let mut all = String::new();
    for i in 0..segments.len()
        invariant
            parts == segments@.map_values(|s: String| s@),
            all@ == concat_all(parts.take(i as int)),
    {
        let v = str_chars(segments[i].as_str());
        push_chars(&mut all, &v);
        assert(parts.take(i + 1).drop_last() == parts.take(i as int));
        assert(parts[i as int] == segments@[i as int]@);
    }
    assert(parts.take(segments.len() as int) == parts);
    let v = str_chars(all.as_str());
    let t = trim_chars(&v);
    SttResult { text: chars_to_string(&t), language: english(), duration_ms }
}

/// The transducer engines' thread count: the machine's parallelism (as a
/// 32-bit count) clamped to `1..=4`, so the cleanup model running beside
/// them is not starved; 2 when the parallelism is unknown.
pub fn num_cpus_clamped(available: Option<usize>) -> (n: i32)
    ensures
        1 <= n <= 4,
        available is None ==> n == 2,
        available matches Some(a) ==> n == (if (a as i32) < 1 {
            1
        } else if (a as i32) > 4 {
            4
        } else {
            a as i32
        }),
{
    match available {
        Some(a) => {
            let x = a as i32;
            if x < 1 {
                1
            } else if x > 4 {
                4
            } else {
                x
            }
        },
        None => 2,
    }
}

/// Configuration of a streaming transducer recognizer.
#[derive(Debug)]
pub struct OnlineTransducerConfig {
    pub encoder: String,
    pub decoder: String,
    pub joiner: String,
    pub tokens: String,
    pub sample_rate: i32,
    pub feature_dim: i32,
    pub num_threads: i32,
    pub debug: bool,
}

/// The files a transducer model directory must hold, in the order the
/// recognizer takes them.
pub const ENCODER_FILE: &'static str = "encoder.onnx";
pub const DECODER_FILE: &'static str = "decoder.onnx";
pub const JOINER_FILE: &'static str = "joiner.onnx";
pub const TOKENS_FILE: &'static str = "tokens.txt";

/// The streaming recognizer's configuration for a model directory's four
/// files: 16 kHz audio, 80 mel bins.
pub fn online_config(
    encoder: String,
    decoder: String,
    joiner: String,
    tokens: String,
    num_threads: i32,
    debug: bool,
) -> (c: OnlineTransducerConfig)
    ensures
        c.encoder == encoder,
        c.decoder == decoder,
        c.joiner == joiner,
        c.tokens == tokens,
        c.sample_rate == SAMPLE_RATE,
        c.feature_dim == FEATURE_DIM,
        c.num_threads == num_threads,
        c.debug == debug,
{
    OnlineTransducerConfig {
        encoder,
        decoder,
        joiner,
        tokens,
        sample_rate: SAMPLE_RATE,
        feature_dim: FEATURE_DIM,
        num_threads,
        debug,
    }
}

/// An engine's display name: `<engine>:<model directory name>`, with
/// `unknown` when the directory has no name.
pub fn engine_name(engine: &str, dir_name: Option<&str>) -> (s: String)
    ensures
        s@ == engine@ + ":"@ + match dir_name {
            Some(d) => d@,
            None => "unknown"@,
        },
{
    let mut s = engine.to_string();
    let colon = str_chars(":");
    push_chars(&mut s, &colon);
    let tail = match dir_name {
        Some(d) => str_chars(d),
        None => str_chars("unknown"),
    };
    push_chars(&mut s, &tail);
    s
}

} // verus!
