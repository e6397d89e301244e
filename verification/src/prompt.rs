//! The cleanup pass's system prompt.
//!
//! The prompt is built from stable pieces first (rules for the style),
//! then the user's corrections, the focused app, and an OCR excerpt of
//! the focused window. OCR text is sanitised before it is embedded: angle
//! brackets become look-alike guillemets so that on-screen text cannot
//! close the OCR block and inject instructions, invisible characters are
//! dropped and whitespace runs are collapsed.
use vstd::prelude::*;
use crate::context::AppContext;
use crate::settings::{nonempty_only, MisheardReplacement, Style};
use crate::text::{
    is_control, is_ctrl, is_whitespace, is_ws, push_chars, str_chars, trim_chars,
    trim_spec,
};

verus! {

/// At most this many characters of OCR text are used.
pub const MAX_OCR_CHARS: usize = 4000;

pub const BASE_HEAD: &'static str = "You are a post-processor for voice dictation. Your job is to add proper punctuation and capitalization to a raw spoken transcript and reshape it per the rules below.\n\nRules:\n- Add periods, commas, question marks, exclamation marks where natural.\n- Capitalize the first word of each sentence and proper nouns.\n- Split run-on sentences into separate sentences.\n- ";

pub const BASE_RULES_TAIL: &'static str = "\n- If a transcribed word is acoustically plausible but semantically nonsensical given the surrounding context, replace it with the most likely intended word. Do not over-correct content that simply seems unusual.\n- Output ONLY the cleaned text. No preamble, no explanation, no quotes around the output.";

pub const AGGRESSIVENESS_0: &'static str = "Preserve every word the speaker said exactly. Do not drop fillers, do not paraphrase.";

pub const AGGRESSIVENESS_1: &'static str = "Drop disfluencies (\"uh\", \"um\", \"you know\", \"I mean\", \"like\" used as filler), false starts, and self-corrections \u{2014} when the speaker says \"go to the store, I mean the office\", output \"go to the office\". Do not paraphrase or shorten otherwise. Keep all substantive content.";

pub const AGGRESSIVENESS_2: &'static str = "Drop disfluencies, false starts, and self-corrections. Light paraphrasing is allowed where it preserves the speaker's meaning and intent. Do not invent or add information.";

pub const STYLE_FORMAL: &'static str = "\nStyle: formal \u{2014} full sentences with proper punctuation, no slang, no contractions where avoidable.";

pub const STYLE_CASUAL: &'static str = "\nStyle: casual \u{2014} keep contractions, conversational tone.";

pub const STYLE_EXCITED: &'static str = "\nStyle: excited \u{2014} exclamation marks where natural, energetic tone.";

pub const STYLE_VERY_CASUAL: &'static str = "\nStyle: very casual \u{2014} lowercase first letters, minimal punctuation.";

pub const CAPTAINS_LOG_HEAD: &'static str = "You are a post-processor for voice dictation, rewriting the speaker's words as a Star-Trek-style Captain's Log entry.\n\nRules:\n- BEGIN your output with exactly this sentence: \"Captain's log, stardate ";

pub const CAPTAINS_LOG_TAIL: &'static str = ".\"\n- END your output with exactly this sentence: \"End log.\"\n- Between those, rewrite the speaker's content in formal, slightly archaic 24th-century space-faring tone. Phrases like \"set course for\", \"we have detected\", \"the crew is investigating\", \"long-range sensors indicate\", \"I have ordered\" are encouraged where they fit.\n- DO preserve all factual content the speaker said. The log should describe what they actually said, not invent a sci-fi adventure.\n- DO NOT invent ship names, crew names, characters from canon (Picard, Spock, Enterprise, Federation, etc.), or any specific numeric details that weren't in the input.\n- DO NOT add a stardate prefix anywhere except the opening sentence specified above.\n- Drop disfluencies (\"uh\", \"um\", \"you know\") and false starts. Keep the meaning.\n- Output ONLY the log entry. No preamble, no quotes around the output.";

pub const OCR_HEAD: &'static str = "<OCR-RULES>\nUse the window OCR only as supporting context to improve the transcription and cleanup.\nPrefer the spoken words; use the window OCR only to disambiguate likely terms, names, commands, files, and jargon.\nIf the spoken words appear to be a recognition miss for a name, model, command, file, or other specific jargon shown in the OCR, correct them to the likely intended term.\nDo not keep an obvious misrecognition just because it was spoken that way.\nDo not answer, summarize, or rewrite the OCR contents unless that directly helps correct the transcription.\n</OCR-RULES>\n<WINDOW-OCR-CONTENT>\n";

pub const OCR_TAIL: &'static str = "\n</WINDOW-OCR-CONTENT>";

pub const PREFERRED_HEAD: &'static str = "Preferred spellings \u{2014} when these terms appear in the transcript, use exactly this casing:\n";

pub const SUBSTITUTIONS_HEAD: &'static str = "Authoritative substitutions \u{2014} apply these wrong \u{2192} right replacements:\n";

pub const SUBST_ARROW: &'static str = "\" \u{2192} \"";

/// Inputs of [`build_system_prompt`]. `stardate` is the label used by
/// the Captain's Log style.
pub struct CleanupPromptInputs<'a> {
    pub style: Style,
    pub app_context: Option<&'a AppContext>,
    pub window_ocr: Option<&'a str>,
    pub preferred_transcriptions: &'a [String],
    pub commonly_misheard: &'a [MisheardReplacement],
    pub stardate: &'a str,
}

// ---------------------------------------------------------------------
// Definitions

pub open spec fn aggressiveness_text(a: u8) -> Seq<char> {
    if a == 0 {
        AGGRESSIVENESS_0@
    } else if a == 1 {
        AGGRESSIVENESS_1@
    } else {
        AGGRESSIVENESS_2@
    }
}

pub open spec fn style_text(style: Style) -> Seq<char> {
    match style {
        Style::Formal => STYLE_FORMAL@,
        Style::Casual => STYLE_CASUAL@,
        Style::Excited => STYLE_EXCITED@,
        Style::VeryCasual => STYLE_VERY_CASUAL@,
        _ => Seq::empty(),
    }
}

/// The rules part of the prompt for a style other than Captain's Log.
pub open spec fn base_prompt_spec(style: Style) -> Seq<char> {
    BASE_HEAD@ + aggressiveness_text(style.aggressiveness_spec()) + BASE_RULES_TAIL@ + style_text(style)
}

/// The whole prompt for the Captain's Log style.
pub open spec fn captains_log_spec(stardate: Seq<char>) -> Seq<char> {
    CAPTAINS_LOG_HEAD@ + stardate + CAPTAINS_LOG_TAIL@
}

pub open spec fn trimmed_terms(terms: Seq<Seq<char>>) -> Seq<Seq<char>> {
    nonempty_only(terms.map_values(|t: Seq<char>| trim_spec(t)))
}

/// Trimmed pairs whose halves are both non-empty.
pub open spec fn clean_pairs(pairs: Seq<(Seq<char>, Seq<char>)>) -> Seq<(Seq<char>, Seq<char>)>
    decreases pairs.len(),
{
    if pairs.len() == 0 {
        Seq::empty()
    } else {
        let rest = clean_pairs(pairs.drop_last());
        let w = trim_spec(pairs.last().0);
        let r = trim_spec(pairs.last().1);
        if w.len() > 0 && r.len() > 0 {
            rest.push((w, r))
        } else {
            rest
        }
    }
}

pub open spec fn bullet_lines(terms: Seq<Seq<char>>) -> Seq<char>
    decreases terms.len(),
{
    if terms.len() == 0 {
        Seq::empty()
    } else {
        bullet_lines(terms.drop_last()) + "- "@ + terms.last() + "\n"@
    }
}

pub open spec fn substitution_lines(pairs: Seq<(Seq<char>, Seq<char>)>) -> Seq<char>
    decreases pairs.len(),
{
    if pairs.len() == 0 {
        Seq::empty()
    } else {
        substitution_lines(pairs.drop_last()) + "- \""@ + pairs.last().0 + SUBST_ARROW@
            + pairs.last().1 + "\"\n"@
    }
}

/// The `<USER-CORRECTIONS>` block; empty when there is nothing to say.
pub open spec fn correction_spec(preferred: Seq<Seq<char>>, pairs: Seq<(Seq<char>, Seq<char>)>) -> Seq<char> {
    let p = trimmed_terms(preferred);
    let m = clean_pairs(pairs);
    if p.len() == 0 && m.len() == 0 {
        Seq::empty()
    } else {
        "<USER-CORRECTIONS>\n"@ + (if p.len() > 0 {
            PREFERRED_HEAD@ + bullet_lines(p)
        } else {
            Seq::empty()
        }) + (if m.len() > 0 {
            (if p.len() > 0 {
                "\n"@
            } else {
                Seq::empty()
            }) + SUBSTITUTIONS_HEAD@ + substitution_lines(m)
        } else {
            Seq::empty()
        }) + "</USER-CORRECTIONS>"@
    }
}

/// The `<APP-CONTEXT>` block.
pub open spec fn app_context_spec(exe: Seq<char>, name: Seq<char>, title: Option<Seq<char>>) -> Seq<char> {
    "<APP-CONTEXT>\n"@ + "Active app: "@ + name + "\n"@ + (if exe.len() > 0 && exe != name {
        "App identifier: "@ + exe + "\n"@
    } else {
        Seq::empty()
    }) + (match title {
        Some(t) => if trim_spec(t).len() > 0 {
            "Window title: "@ + trim_spec(t) + "\n"@
        } else {
            Seq::empty()
        },
        None => Seq::empty(),
    }) + "</APP-CONTEXT>"@
}

pub open spec fn is_zero_width(c: char) -> bool {
    let u = c as u32;
    (0x200B <= u <= 0x200F) || u == 0xFEFF
}

/// `<` and `>` become the single guillemets U+2039 and U+203A.
pub open spec fn ocr_map(c: char) -> char {
    if c == '<' {
        '\u{2039}'
    } else if c == '>' {
        '\u{203A}'
    } else {
        c
    }
}

/// Sanitiser state: text so far, whether it ends in a collapsed space,
/// and the length of the current run of newlines.
pub ghost struct OcrState {
    pub out: Seq<char>,
    pub last_was_space: bool,
    pub newline_run: nat,
}

pub open spec fn ocr_step(st: OcrState, c: char) -> OcrState {
    if is_ctrl(c) && c != '\n' && c != '\t' {
        st
    } else if is_zero_width(c) {
        st
    } else {
        let m = ocr_map(c);
        if m == '\n' {
            OcrState {
                out: if st.newline_run + 1 <= 2 {
                    st.out.push('\n')
                } else {
                    st.out
                },
                last_was_space: false,
                newline_run: st.newline_run + 1,
            }
        } else if is_ws(m) {
            if !st.last_was_space {
                OcrState { out: st.out.push(' '), last_was_space: true, newline_run: 0 }
            } else {
                OcrState { newline_run: 0, ..st }
            }
        } else {
            OcrState { out: st.out.push(m), last_was_space: false, newline_run: 0 }
        }
    }
}

pub open spec fn ocr_run(s: Seq<char>) -> OcrState
    decreases s.len(),
{
    if s.len() == 0 {
        OcrState { out: Seq::empty(), last_was_space: false, newline_run: 0 }
    } else {
        ocr_step(ocr_run(s.drop_last()), s.last())
    }
}

pub open spec fn ocr_prefix(s: Seq<char>) -> Seq<char> {
    if s.len() <= MAX_OCR_CHARS {
        s
    } else {
        s.take(MAX_OCR_CHARS as int)
    }
}

/// The sanitised OCR text.
pub open spec fn sanitize_spec(ocr: Seq<char>) -> Seq<char> {
    trim_spec(ocr_run(ocr_prefix(ocr)).out)
}

/// The `<OCR-RULES>` and `<WINDOW-OCR-CONTENT>` blocks.
pub open spec fn ocr_block_spec(ocr: Seq<char>) -> Seq<char> {
    OCR_HEAD@ + sanitize_spec(ocr) + OCR_TAIL@
}

pub open spec fn string_views(v: Seq<String>) -> Seq<Seq<char>> {
    v.map_values(|s: String| s@)
}

pub open spec fn pair_views(v: Seq<MisheardReplacement>) -> Seq<(Seq<char>, Seq<char>)> {
    v.map_values(|m: MisheardReplacement| (m.wrong@, m.right@))
}

pub open spec fn section(s: Seq<char>) -> Seq<char> {
    if s.len() > 0 {
        "\n\n"@ + s
    } else {
        Seq::empty()
    }
}

/// The whole system prompt for the given inputs.
pub open spec fn system_prompt_spec(i: CleanupPromptInputs) -> Seq<char> {
    if i.style == Style::CaptainsLog {
        captains_log_spec(i.stardate@)
    } else {
        base_prompt_spec(i.style) + section(
            correction_spec(string_views(i.preferred_transcriptions@), pair_views(i.commonly_misheard@)),
        ) + (match i.app_context {
            Some(c) => "\n\n"@ + app_context_spec(c.app_exe@, c.app_name@, match c.window_title {
                Some(t) => Some(t@),
                None => None,
            }),
            None => Seq::empty(),
        }) + (match i.window_ocr {
            Some(o) => if trim_spec(o@).len() > 0 {
                "\n\n"@ + ocr_block_spec(o@)
            } else {
                Seq::empty()
            },
            None => Seq::empty(),
        })
    }
}

// ---------------------------------------------------------------------
// Laws

proof fn lemma_ocr_run_clean(s: Seq<char>)
    ensures
        ocr_run(s).out.len() <= s.len(),
        forall|i: int|
            0 <= i < ocr_run(s).out.len() ==> #[trigger] ocr_run(s).out[i] != '<' && ocr_run(s).out[i]
                != '>',
    decreases s.len(),
{
    if s.len() > 0 {
        lemma_ocr_run_clean(s.drop_last());
    }
}

/// The rules part of the prompt ends with the style's own instruction
/// line: formal, casual, excited and very casual each get theirs, and the
/// four lines differ from one another. The raw style has no style line
/// and ends with the general rules.
pub proof fn base_prompt_ends_with_its_style_line(style: Style)
    ensures
        style == Style::Formal ==> crate::text::ends_with_spec(base_prompt_spec(style), STYLE_FORMAL@),
        style == Style::Casual ==> crate::text::ends_with_spec(base_prompt_spec(style), STYLE_CASUAL@),
        style == Style::Excited ==> crate::text::ends_with_spec(base_prompt_spec(style), STYLE_EXCITED@),
        style == Style::VeryCasual ==> crate::text::ends_with_spec(base_prompt_spec(style), STYLE_VERY_CASUAL@),
        style == Style::Raw ==> crate::text::ends_with_spec(base_prompt_spec(style), BASE_RULES_TAIL@),
        STYLE_FORMAL@ != STYLE_CASUAL@,
        STYLE_FORMAL@ != STYLE_EXCITED@,
        STYLE_FORMAL@ != STYLE_VERY_CASUAL@,
        STYLE_CASUAL@ != STYLE_EXCITED@,
        STYLE_CASUAL@ != STYLE_VERY_CASUAL@,
        STYLE_EXCITED@ != STYLE_VERY_CASUAL@,
{
    let head = BASE_HEAD@ + aggressiveness_text(style.aggressiveness_spec()) + BASE_RULES_TAIL@;
    let line = style_text(style);
    assert((head + line).subrange(head.len() as int, (head + line).len() as int) =~= line);
    if style == Style::Raw {
        reveal_strlit("");
        assert(line.len() == 0);
        assert(head + line =~= head);
        let pre = BASE_HEAD@ + aggressiveness_text(style.aggressiveness_spec());
        assert(head.subrange(pre.len() as int, head.len() as int) =~= BASE_RULES_TAIL@);
    }
    reveal_strlit("\nStyle: formal \u{2014} full sentences with proper punctuation, no slang, no contractions where avoidable.");
    reveal_strlit("\nStyle: casual \u{2014} keep contractions, conversational tone.");
    reveal_strlit("\nStyle: excited \u{2014} exclamation marks where natural, energetic tone.");
    reveal_strlit("\nStyle: very casual \u{2014} lowercase first letters, minimal punctuation.");
    assert(STYLE_FORMAL@[8] != STYLE_CASUAL@[8]);
    assert(STYLE_FORMAL@[8] != STYLE_EXCITED@[8]);
    assert(STYLE_FORMAL@[8] != STYLE_VERY_CASUAL@[8]);
    assert(STYLE_CASUAL@[8] != STYLE_EXCITED@[8]);
    assert(STYLE_CASUAL@[8] != STYLE_VERY_CASUAL@[8]);
    assert(STYLE_EXCITED@[8] != STYLE_VERY_CASUAL@[8]);
}

/// The rules part opens with the general head and then the filler rule of
/// the style: the raw style keeps every spoken word, every other style
/// drops disfluencies without paraphrasing.
pub proof fn base_prompt_opens_with_its_filler_rule(style: Style)
    ensures
        ({
            let rule = if style == Style::Raw { AGGRESSIVENESS_0@ } else { AGGRESSIVENESS_1@ };
            let p = base_prompt_spec(style);
            &&& p.len() >= BASE_HEAD@.len() + rule.len()
            &&& p.take((BASE_HEAD@.len() + rule.len()) as int) == BASE_HEAD@ + rule
        }),
{
    let rule = if style == Style::Raw { AGGRESSIVENESS_0@ } else { AGGRESSIVENESS_1@ };
    let p = base_prompt_spec(style);
    assert(p.take((BASE_HEAD@.len() + rule.len()) as int) =~= BASE_HEAD@ + rule);
}

/// Apart from the Captain's Log, the whole system prompt begins with the
/// rules part for its style; what follows only adds sections.
pub proof fn system_prompt_begins_with_style_rules(i: CleanupPromptInputs)
    requires
        i.style != Style::CaptainsLog,
    ensures
        system_prompt_spec(i).len() >= base_prompt_spec(i.style).len(),
        system_prompt_spec(i).take(base_prompt_spec(i.style).len() as int) == base_prompt_spec(i.style),
{
    let b = base_prompt_spec(i.style);
    assert(system_prompt_spec(i).take(b.len() as int) =~= b);
}

/// Sanitised OCR text holds no `<` or `>`, so it can never close the
/// `<WINDOW-OCR-CONTENT>` block or open another tag; and it holds at most
/// [`MAX_OCR_CHARS`] characters.
pub proof fn sanitized_ocr_is_inert(ocr: Seq<char>)
    ensures
        sanitize_spec(ocr).len() <= MAX_OCR_CHARS,
        forall|i: int|
            0 <= i < sanitize_spec(ocr).len() ==> #[trigger] sanitize_spec(ocr)[i] != '<'
                && sanitize_spec(ocr)[i] != '>',
{
    let pre = ocr_prefix(ocr);
    lemma_ocr_run_clean(pre);
    let out = ocr_run(pre).out;
    crate::text::lemma_trim_is_slice(out);
    let (lo, hi) = choose|lo: int, hi: int| 0 <= lo <= hi <= out.len() && trim_spec(out) == out.subrange(lo, hi);
    assert forall|i: int| 0 <= i < sanitize_spec(ocr).len() implies #[trigger] sanitize_spec(ocr)[i] != '<'
        && sanitize_spec(ocr)[i] != '>' by {
        assert(sanitize_spec(ocr)[i] == out[lo + i]);
    }
}

// ---------------------------------------------------------------------
// Executable code

fn push_str(s: &mut String, t: &str)
    ensures
        final(s)@ == old(s)@ + t@,
{
    let v = str_chars(t);
    push_chars(s, &v);
}

/// The rules part of the prompt: aggressiveness instruction and style
/// line. (The Captain's Log style has a prompt of its own.)
pub fn base_system_prompt(style: Style) -> (s: String)
    requires
        style != Style::CaptainsLog,
    ensures
        s@ == base_prompt_spec(style),
{
    let a = style.aggressiveness();
    let instr = if a == 0 {
        AGGRESSIVENESS_0
    } else if a == 1 {
        AGGRESSIVENESS_1
    } else {
        AGGRESSIVENESS_2
    };
    let style_instr = match style {
        Style::Formal => STYLE_FORMAL,
        Style::Casual => STYLE_CASUAL,
        Style::Excited => STYLE_EXCITED,
        Style::VeryCasual => STYLE_VERY_CASUAL,
        _ => "",
    };
    let mut s = String::new();
    push_str(&mut s, BASE_HEAD);
    push_str(&mut s, instr);
    push_str(&mut s, BASE_RULES_TAIL);
    push_str(&mut s, style_instr);
    proof {
        assert(""@.len() == 0) by {
            reveal_strlit("");
        }
    }
    s
}

/// The Captain's Log prompt, opening with the given stardate.
pub fn build_captains_log_prompt(stardate: &str) -> (s: String)
    ensures
        s@ == captains_log_spec(stardate@),
{
    let mut s = String::new();
    push_str(&mut s, CAPTAINS_LOG_HEAD);
    push_str(&mut s, stardate);
    push_str(&mut s, CAPTAINS_LOG_TAIL);
    s
}

fn trimmed_string(s: &String) -> (r: Vec<char>)
    ensures
        r@ == trim_spec(s@),
{
    let v = str_chars(s.as_str());
    trim_chars(&v)
}

/// The `<USER-CORRECTIONS>` block: preferred spellings as a bullet list,
/// then wrong-to-right substitutions; entries are trimmed and blank ones
/// dropped; empty when nothing remains.
pub fn correction_section(preferred: &[String], misheard: &[MisheardReplacement]) -> (s: String)
    ensures
        s@ == correction_spec(string_views(preferred@), pair_views(misheard@)),
{
    let ghost pv = string_views(preferred@);
    let ghost mapped = pv.map_values(|t: Seq<char>| trim_spec(t));
    let mut terms: Vec<Vec<char>> = Vec::new();
    let mut i: usize = 0;
    while i < preferred.len()
        invariant
            i <= preferred@.len(),
            pv == string_views(preferred@),
            mapped == pv.map_values(|t: Seq<char>| trim_spec(t)),
            crate::text::views(terms@) == nonempty_only(mapped.take(i as int)),
        decreases preferred@.len() - i,
    {
        let t = trimmed_string(&preferred[i]);
        assert(mapped.take(i + 1).drop_last() == mapped.take(i as int));
        assert(mapped.take(i + 1).last() == t@);
        if t.len() > 0 {
            terms.push(t);
            assert(crate::text::views(terms@) == crate::text::views(terms@.drop_last()).push(terms@.last()@));
        }
        i = i + 1;
    }
    assert(mapped.take(preferred@.len() as int) == mapped);
    let ghost mv = pair_views(misheard@);
    let mut pairs: Vec<(Vec<char>, Vec<char>)> = Vec::new();
    let mut j: usize = 0;
    while j < misheard.len()
        invariant
            j <= misheard@.len(),
            mv == pair_views(misheard@),
            pairs@.map_values(|p: (Vec<char>, Vec<char>)| (p.0@, p.1@)) == clean_pairs(mv.take(j as int)),
        decreases misheard@.len() - j,
    {
        let w = trimmed_string(&misheard[j].wrong);
        let r = trimmed_string(&misheard[j].right);
        assert(mv.take(j + 1).drop_last() == mv.take(j as int));
        assert(mv.take(j + 1).last() == (misheard@[j as int].wrong@, misheard@[j as int].right@));
        if w.len() > 0 && r.len() > 0 {
            let ghost wv = w@;
            let ghost rv = r@;
            pairs.push((w, r));
            assert(pairs@.map_values(|p: (Vec<char>, Vec<char>)| (p.0@, p.1@)) == pairs@.drop_last().map_values(
                |p: (Vec<char>, Vec<char>)| (p.0@, p.1@),
            ).push((wv, rv)));
        }
        j = j + 1;
    }
    assert(mv.take(misheard@.len() as int) == mv);
    let ghost p = trimmed_terms(pv);
    let ghost m = clean_pairs(mv);
    if terms.len() == 0 && pairs.len() == 0 {
        return String::new();
    }
    let mut block = String::new();
    push_str(&mut block, "<USER-CORRECTIONS>\n");
    let ghost after_open = block@;
    if terms.len() > 0 {
        push_str(&mut block, PREFERRED_HEAD);
        let mut k: usize = 0;
        while k < terms.len()
            invariant
                k <= terms@.len(),
                block@ == after_open + PREFERRED_HEAD@ + bullet_lines(crate::text::views(terms@).take(k as int)),
            decreases terms@.len() - k,
        {
            assert(crate::text::views(terms@).take(k + 1).drop_last() == crate::text::views(terms@).take(k as int));
            assert(crate::text::views(terms@).take(k + 1).last() == terms@[k as int]@);
            push_str(&mut block, "- ");
            push_chars(&mut block, &terms[k]);
            push_str(&mut block, "\n");
            k = k + 1;
        }
        assert(crate::text::views(terms@).take(terms@.len() as int) == crate::text::views(terms@));
    }
    let ghost after_pref = block@;
    if pairs.len() > 0 {
        if terms.len() > 0 {
            push_str(&mut block, "\n");
        }
        push_str(&mut block, SUBSTITUTIONS_HEAD);
        let ghost head = block@;
        let ghost pvs = pairs@.map_values(|p: (Vec<char>, Vec<char>)| (p.0@, p.1@));
        let mut k: usize = 0;
        while k < pairs.len()
            invariant
                k <= pairs@.len(),
                pvs == pairs@.map_values(|p: (Vec<char>, Vec<char>)| (p.0@, p.1@)),
                block@ == head + substitution_lines(pvs.take(k as int)),
            decreases pairs@.len() - k,
        {
            assert(pvs.take(k + 1).drop_last() == pvs.take(k as int));
            assert(pvs.take(k + 1).last() == (pairs@[k as int].0@, pairs@[k as int].1@));
            push_str(&mut block, "- \"");
            push_chars(&mut block, &pairs[k].0);
            push_str(&mut block, SUBST_ARROW);
            push_chars(&mut block, &pairs[k].1);
            push_str(&mut block, "\"\n");
            k = k + 1;
        }
        assert(pvs.take(pairs@.len() as int) == pvs);
    }
    push_str(&mut block, "</USER-CORRECTIONS>");
    block
}

/// The `<APP-CONTEXT>` block: the app's name, its identifier when it
/// differs, and the window title when there is one.
pub fn app_context_block(ctx: &AppContext) -> (s: String)
    ensures
        s@ == app_context_spec(ctx.app_exe@, ctx.app_name@, match ctx.window_title {
            Some(t) => Some(t@),
            None => None,
        }),
{
    let mut s = String::new();
    push_str(&mut s, "<APP-CONTEXT>\n");
    push_str(&mut s, "Active app: ");
    push_str(&mut s, ctx.app_name.as_str());
    push_str(&mut s, "\n");
    let exe = str_chars(ctx.app_exe.as_str());
    let name = str_chars(ctx.app_name.as_str());
    if exe.len() > 0 && !crate::learning::seq_eq_chars(&exe, &name) {
        push_str(&mut s, "App identifier: ");
        push_chars(&mut s, &exe);
        push_str(&mut s, "\n");
    }
    match &ctx.window_title {
        Some(title) => {
            let t = trimmed_string(title);
            if t.len() > 0 {
                push_str(&mut s, "Window title: ");
                push_chars(&mut s, &t);
                push_str(&mut s, "\n");
            }
        },
        None => {},
    }
    push_str(&mut s, "</APP-CONTEXT>");
    proof {
        assert(Seq::<char>::empty() + Seq::<char>::empty() == Seq::<char>::empty());
    }
    s
}

fn is_zero_width_exec(c: char) -> (b: bool)
    ensures
        b == is_zero_width(c),
{
    let u = c as u32;
    (0x200B <= u && u <= 0x200F) || u == 0xFEFF
}

/// Sanitise OCR text for the prompt: keep at most [`MAX_OCR_CHARS`]
/// characters, drop control characters (except newline and tab) and
/// zero-width marks, turn `<` and `>` into look-alike guillemets,
/// collapse runs of other whitespace to one space and runs of newlines
/// to at most two, and trim.
pub fn sanitize_ocr(ocr: &str) -> (s: String)
    ensures
        s@ == sanitize_spec(ocr@),
{
    let v = str_chars(ocr);
    let n = if v.len() <= MAX_OCR_CHARS { v.len() } else { MAX_OCR_CHARS };
    let ghost pre = ocr_prefix(v@);
    assert(pre == v@.take(n as int));
    let mut out: Vec<char> = Vec::new();
    let mut last_was_space = false;
    let mut newline_run: usize = 0;
    let mut i: usize = 0;
    while i < n
        invariant
            i <= n <= v.len(),
            n <= MAX_OCR_CHARS,
            newline_run <= i,
            ({
                let st = ocr_run(v@.take(i as int));
                st.out == out@ && st.last_was_space == last_was_space && st.newline_run == newline_run
            }),
        decreases n - i,
    {
        let c = v[i];
        assert(v@.take(i + 1).drop_last() == v@.take(i as int));
        assert(v@.take(i + 1).last() == c);
        i = i + 1;
        if is_control(c) && c != '\n' && c != '\t' {
            continue;
        }
        if is_zero_width_exec(c) {
            continue;
        }
        let mapped = if c == '<' {
            '\u{2039}'
        } else if c == '>' {
            '\u{203A}'
        } else {
            c
        };
        if mapped == '\n' {
            newline_run = newline_run + 1;
            if newline_run <= 2 {
                out.push('\n');
            }
            last_was_space = false;
            continue;
        }
        newline_run = 0;
        if is_whitespace(mapped) {
            if !last_was_space {
                out.push(' ');
                last_was_space = true;
            }
            continue;
        }
        last_was_space = false;
        out.push(mapped);
    }
    let t = trim_chars(&out);
    crate::text::chars_to_string(&t)
}

/// The OCR rules followed by the sanitised OCR text.
pub fn ocr_block(ocr: &str) -> (s: String)
    ensures
        s@ == ocr_block_spec(ocr@),
{
    let sanitized = sanitize_ocr(ocr);
    let mut s = String::new();
    push_str(&mut s, OCR_HEAD);
    push_str(&mut s, sanitized.as_str());
    push_str(&mut s, OCR_TAIL);
    s
}

/// Build the cleanup pass's system prompt. The Captain's Log style has a
/// prompt of its own; otherwise the style rules are followed by the
/// corrections block, the app-context block and the OCR block, each
/// when present, separated by blank lines.
pub fn build_system_prompt(inputs: &CleanupPromptInputs) -> (s: String)
    ensures
        s@ == system_prompt_spec(*inputs),
{
    if inputs.style == Style::CaptainsLog {
        return build_captains_log_prompt(inputs.stardate);
    }
    let mut out = base_system_prompt(inputs.style);
    let ghost base = out@;
    let corrections = correction_section(inputs.preferred_transcriptions, inputs.commonly_misheard);
    if !corrections.as_str().is_empty() {
        push_str(&mut out, "\n\n");
        push_str(&mut out, corrections.as_str());
    }
    let ghost with_corr = out@;
    assert(with_corr == base + section(corrections@));
    match inputs.app_context {
        Some(ctx) => {
            push_str(&mut out, "\n\n");
            let b = app_context_block(ctx);
            push_str(&mut out, b.as_str());
        },
        None => {},
    }
    let ghost with_ctx = out@;
    match inputs.window_ocr {
        Some(ocr) => {
            let ov = str_chars(ocr);
            let t = trim_chars(&ov);
            if t.len() > 0 {
                push_str(&mut out, "\n\n");
                let b = ocr_block(ocr);
                push_str(&mut out, b.as_str());
            }
        },
        None => {},
    }
    proof {
        assert(Seq::<char>::empty() + Seq::<char>::empty() == Seq::<char>::empty());
        assert(with_corr + Seq::<char>::empty() == with_corr);
        assert(with_ctx + Seq::<char>::empty() == with_ctx);
    }
    out
}

} // verus!
