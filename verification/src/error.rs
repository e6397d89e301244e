//! The library's error type.
use vstd::prelude::*;
use crate::text::push_chars;
use crate::text::str_chars;

verus! {

/// Crate-wide error. The variant says which stage failed; the payload is
/// a human-readable message.
#[derive(Debug, PartialEq, Eq)]
pub enum BoothError {
    AudioCapture(String),
    Transcription(String),
    Formatting(String),
    Injection(String),
    Internal(String),
}

impl BoothError {
    /// An `Internal` error carrying `msg`.
    pub fn internal(msg: &str) -> (e: BoothError)
        ensures
            e matches BoothError::Internal(m) && m@ == msg@,
    {
        BoothError::Internal(msg.to_string())
    }

    /// The error's message prefixed by its stage, e.g.
    /// `"internal error: ..."`.
    pub fn message(&self) -> (s: String)
        ensures
            s@ == self.message_spec(),
    {
        let (prefix, m) = match self {
            BoothError::AudioCapture(m) => ("audio capture failed: ", m),
            BoothError::Transcription(m) => ("transcription failed: ", m),
            BoothError::Formatting(m) => ("formatting failed: ", m),
            BoothError::Injection(m) => ("injection failed: ", m),
            BoothError::Internal(m) => ("internal error: ", m),
        };
        let mut s = prefix.to_string();
        let mv = str_chars(m.as_str());
        push_chars(&mut s, &mv);
        s
    }

    pub open spec fn message_spec(&self) -> Seq<char> {
        match self {
            BoothError::AudioCapture(m) => "audio capture failed: "@ + m@,
            BoothError::Transcription(m) => "transcription failed: "@ + m@,
            BoothError::Formatting(m) => "formatting failed: "@ + m@,
            BoothError::Injection(m) => "injection failed: "@ + m@,
            BoothError::Internal(m) => "internal error: "@ + m@,
        }
    }
}

} // verus!
