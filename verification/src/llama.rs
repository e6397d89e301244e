//! The prompt for the in-process cleanup model (a chat-templated Qwen
//! model run locally). Inference is the caller's.
use vstd::prelude::*;
use crate::llm::CleanupRequest;
use crate::settings::Style;
use crate::text::{push_chars, str_chars};

verus! {

/// The chat template's system preamble.
pub const LOCAL_SYSTEM_HEAD: &'static str = "<|im_start|>system\nYou are a post-processor for voice dictation. Your job is to add proper punctuation and capitalization to a raw spoken transcript while preserving the speaker's words.\n\nRules:\n- Add periods, commas, question marks, exclamation marks where natural.\n- Capitalize the first word of each sentence and proper nouns.\n- Split run-on sentences into separate sentences.\n- Do NOT change words, paraphrase, or remove filler words.\n- Output ONLY the cleaned text. No preamble, no explanation, no quotes around the output.\n";

/// Between the style line and the transcript.
pub const LOCAL_USER_HEAD: &'static str = "<|im_end|>\n<|im_start|>user\n";

/// After the transcript: the assistant's turn begins.
pub const LOCAL_TAIL: &'static str = "<|im_end|>\n<|im_start|>assistant\n";

pub open spec fn style_line_spec(style: Style) -> Seq<char> {
    match style {
        Style::Raw => ""@,
        Style::Formal => "\nStyle: formal — full sentences with proper punctuation, no slang, no contractions where avoidable.\n"@,
        Style::Casual => "\nStyle: casual — keep contractions, conversational tone.\n"@,
        Style::Excited => "\nStyle: excited — exclamation marks where natural, energetic tone.\n"@,
        Style::VeryCasual => "\nStyle: very casual — lowercase first letters, minimal punctuation, contractions everywhere.\n"@,
        Style::CaptainsLog => ""@,
    }
}

/// The style's line in the local prompt (none for raw output and for the
/// Captain's Log style, which the local model does not do).
pub fn style_instructions(style: &Style) -> (s: &'static str)
    ensures
        s@ == style_line_spec(*style),
{
    match style {
        Style::Raw => "",
        Style::Formal => "\nStyle: formal — full sentences with proper punctuation, no slang, no contractions where avoidable.\n",
        Style::Casual => "\nStyle: casual — keep contractions, conversational tone.\n",
        Style::Excited => "\nStyle: excited — exclamation marks where natural, energetic tone.\n",
        Style::VeryCasual => "\nStyle: very casual — lowercase first letters, minimal punctuation, contractions everywhere.\n",
        Style::CaptainsLog => "",
    }
}

pub open spec fn local_prompt_spec(style: Style, raw: Seq<char>) -> Seq<char> {
    LOCAL_SYSTEM_HEAD@ + style_line_spec(style) + LOCAL_USER_HEAD@ + raw + LOCAL_TAIL@
}

/// The full chat-templated prompt for one transcript.
pub fn build_prompt(req: &CleanupRequest) -> (s: String)
    ensures
        s@ == local_prompt_spec(req.style, req.raw_text@),
{
    let mut s = LOCAL_SYSTEM_HEAD.to_string();
    let style = str_chars(style_instructions(&req.style));
    push_chars(&mut s, &style);
    let user = str_chars(LOCAL_USER_HEAD);
    push_chars(&mut s, &user);
    let raw = str_chars(req.raw_text);
    push_chars(&mut s, &raw);
    let tail = str_chars(LOCAL_TAIL);
    push_chars(&mut s, &tail);
    s
}

} // verus!
