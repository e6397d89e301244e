//! Post-paste correction learning: after a paste, the focused field is
//! read back; a small single-word edit (edit distance at most
//! [`MAX_EDIT_DISTANCE`]) is taken as a recognition correction and
//! becomes a `MisheardReplacement`.
use vstd::prelude::*;
use crate::settings::MisheardReplacement;
use crate::text::{
    char_alphanumeric, chars_to_string, is_alphanumeric, lower_chars, lower_seq, split_words,
    str_chars, trim_chars, trim_spec, views, words,
};

verus! {

/// Largest edit distance that still counts as a recognition correction.
pub const MAX_EDIT_DISTANCE: usize = 3;

/// Longest word, in UTF-8 bytes, that a correction may involve.
pub const MAX_WORD_LEN: usize = 32;

/// Shortest word, in UTF-8 bytes, that a correction may involve.
pub const MIN_WORD_LEN: usize = 3;

/// Platform accessibility reader for the focused text field. `None` when
/// the field does not expose its value.
pub trait FocusedTextReader {
    fn read_focused_text(&self) -> Option<String>;

    /// Identifier for diagnostics.
    fn name(&self) -> &str;
}

/// macOS accessibility reader. The accessibility call is not wired yet,
/// so every read reports that no text is available.
#[derive(Debug, Default, Clone, Copy)]
pub struct MacosFocusedTextReader;

impl MacosFocusedTextReader {
    pub fn new() -> (r: MacosFocusedTextReader)
        ensures
            r == MacosFocusedTextReader,
    {
        MacosFocusedTextReader
    }
}

impl FocusedTextReader for MacosFocusedTextReader {
    fn read_focused_text(&self) -> (r: Option<String>)
        ensures
            r is None,
    {
        None
    }

    fn name(&self) -> (n: &str)
        ensures
            n@ == "macos-ax-stub"@,
    {
        "macos-ax-stub"
    }
}

// ---------------------------------------------------------------------
// Definitions

/// Number of bytes `c` takes in UTF-8.
pub open spec fn utf8_width(c: char) -> nat {
    let u = c as u32;
    if u < 0x80 {
        1
    } else if u < 0x800 {
        2
    } else if u < 0x10000 {
        3
    } else {
        4
    }
}

/// Length in bytes of the UTF-8 encoding of `s` (what `str::len` gives).
pub open spec fn utf8_len(s: Seq<char>) -> nat
    decreases s.len(),
{
    if s.len() == 0 {
        0
    } else {
        utf8_len(s.drop_last()) + utf8_width(s.last())
    }
}

/// Characters that `strip_outer_punct` removes from the ends of a word:
/// everything that is neither alphanumeric, an apostrophe nor a hyphen.
pub open spec fn is_outer_punct(c: char) -> bool {
    !char_alphanumeric(c) && c != '\'' && c != '-'
}

pub open spec fn strip_start_spec(s: Seq<char>) -> Seq<char>
    decreases s.len(),
{
    if s.len() > 0 && is_outer_punct(s[0]) {
        strip_start_spec(s.drop_first())
    } else {
        s
    }
}

pub open spec fn strip_end_spec(s: Seq<char>) -> Seq<char>
    decreases s.len(),
{
    if s.len() > 0 && is_outer_punct(s.last()) {
        strip_end_spec(s.drop_last())
    } else {
        s
    }
}

/// `word` with leading and trailing punctuation removed.
pub open spec fn strip_outer_punct_spec(word: Seq<char>) -> Seq<char> {
    strip_end_spec(strip_start_spec(word))
}

pub open spec fn min3(a: nat, b: nat, c: nat) -> nat {
    if a <= b && a <= c {
        a
    } else if b <= c {
        b
    } else {
        c
    }
}

/// Levenshtein distance (insertions, deletions and substitutions of one
/// character each cost 1).
pub open spec fn lev(a: Seq<char>, b: Seq<char>) -> nat
    decreases a.len() + b.len(),
{
    if a.len() == 0 {
        b.len()
    } else if b.len() == 0 {
        a.len()
    } else {
        min3(
            lev(a.drop_last(), b) + 1,
            lev(a, b.drop_last()) + 1,
            lev(a.drop_last(), b.drop_last()) + if a.last() == b.last() {
                0nat
            } else {
                1nat
            },
        )
    }
}

/// Index of the first position at or after `i` where the word lists
/// differ (or one of them ends).
pub open spec fn prefix_from(p: Seq<Seq<char>>, c: Seq<Seq<char>>, i: nat) -> nat
    decreases p.len() - i,
{
    if i < p.len() && i < c.len() && p[i as int] == c[i as int] {
        prefix_from(p, c, i + 1)
    } else {
        i
    }
}

/// Like [`prefix_from`], counting equal words from the ends.
pub open spec fn suffix_from(p: Seq<Seq<char>>, c: Seq<Seq<char>>, k: nat) -> nat
    decreases p.len() - k,
{
    if k < p.len() && k < c.len() && p[p.len() - 1 - k] == c[c.len() - 1 - k] {
        suffix_from(p, c, k + 1)
    } else {
        k
    }
}

pub open spec fn sat_sub(a: nat, b: nat) -> nat {
    if a >= b {
        (a - b) as nat
    } else {
        0
    }
}

/// The single replaced word on each side, once the longest common word
/// prefix and suffix are set aside; `None` unless exactly one word
/// changed.
pub open spec fn replaced_words(p: Seq<Seq<char>>, c: Seq<Seq<char>>) -> Option<(Seq<char>, Seq<char>)> {
    let prefix = prefix_from(p, c, 0);
    let suffix = suffix_from(p, c, 0);
    let p_end = sat_sub(p.len(), suffix);
    let c_end = sat_sub(c.len(), suffix);
    if prefix > p_end || prefix > c_end {
        None
    } else if p_end - prefix != 1 || c_end - prefix != 1 {
        None
    } else {
        Some((p[prefix as int], c[prefix as int]))
    }
}

/// Whether the pair (`wrong`, `right`) passes the correction filters.
pub open spec fn plausible_correction(wrong: Seq<char>, right: Seq<char>) -> bool {
    &&& wrong.len() > 0 && right.len() > 0
    &&& wrong != right
    &&& utf8_len(wrong) >= MIN_WORD_LEN && utf8_len(right) >= MIN_WORD_LEN
    &&& utf8_len(wrong) <= MAX_WORD_LEN && utf8_len(right) <= MAX_WORD_LEN
    &&& 1 <= lev(wrong, right) <= MAX_EDIT_DISTANCE
    &&& lower_seq(wrong) != lower_seq(right)
}

/// The correction that `detect_correction` reports for a pasted text and
/// the field's current contents.
pub open spec fn detect_correction_spec(pasted: Seq<char>, current: Seq<char>) -> Option<(Seq<char>, Seq<char>)> {
    let pt = trim_spec(pasted);
    let ct = trim_spec(current);
    if pt.len() == 0 || ct.len() == 0 || pt == ct {
        None
    } else {
        match replaced_words(words(pt), words(ct)) {
            None => None,
            Some((w, r)) => {
                let wrong = strip_outer_punct_spec(w);
                let right = strip_outer_punct_spec(r);
                if plausible_correction(wrong, right) {
                    Some((wrong, right))
                } else {
                    None
                }
            },
        }
    }
}

// ---------------------------------------------------------------------
// Lemmas

/// The distance never exceeds the longer string's length.
pub proof fn levenshtein_at_most_longer(a: Seq<char>, b: Seq<char>)
    ensures
        lev(a, b) <= if a.len() >= b.len() { a.len() } else { b.len() },
    decreases a.len() + b.len(),
{
    if a.len() > 0 && b.len() > 0 {
        levenshtein_at_most_longer(a.drop_last(), b.drop_last());
    }
}

/// A string is at distance zero from itself.
pub proof fn levenshtein_identity(a: Seq<char>)
    ensures
        lev(a, a) == 0,
    decreases a.len(),
{
    if a.len() > 0 {
        levenshtein_identity(a.drop_last());
    }
}

/// The distance is symmetric.
pub proof fn levenshtein_symmetric(a: Seq<char>, b: Seq<char>)
    ensures
        lev(a, b) == lev(b, a),
    decreases a.len() + b.len(),
{
    if a.len() > 0 && b.len() > 0 {
        levenshtein_symmetric(a.drop_last(), b);
        levenshtein_symmetric(a, b.drop_last());
        levenshtein_symmetric(a.drop_last(), b.drop_last());
    }
}

/// The distance is at least the difference of the lengths.
pub proof fn levenshtein_at_least_length_difference(a: Seq<char>, b: Seq<char>)
    ensures
        lev(a, b) >= a.len() - b.len(),
        lev(a, b) >= b.len() - a.len(),
    decreases a.len() + b.len(),
{
    if a.len() > 0 && b.len() > 0 {
        levenshtein_at_least_length_difference(a.drop_last(), b);
        levenshtein_at_least_length_difference(a, b.drop_last());
        levenshtein_at_least_length_difference(a.drop_last(), b.drop_last());
    }
}

/// Only equal strings are at distance zero.
pub proof fn levenshtein_zero_only_when_equal(a: Seq<char>, b: Seq<char>)
    requires
        lev(a, b) == 0,
    ensures
        a == b,
    decreases a.len() + b.len(),
{
    if a.len() == 0 || b.len() == 0 {
        assert(a.len() == 0 && b.len() == 0);
        assert(a =~= b);
    } else {
        assert(a.last() == b.last());
        levenshtein_zero_only_when_equal(a.drop_last(), b.drop_last());
        assert(a =~= a.drop_last().push(a.last()));
        assert(b =~= b.drop_last().push(b.last()));
    }
}

/// Text that was left as pasted yields no correction.
pub proof fn unchanged_text_learns_nothing(pasted: Seq<char>)
    ensures
        detect_correction_spec(pasted, pasted) is None,
{
}

/// Every reported correction passes the filters: both words non-empty,
/// different (also ignoring ASCII case), of plausible length, and within
/// the edit-distance limit.
pub proof fn detected_corrections_are_plausible(pasted: Seq<char>, current: Seq<char>)
    ensures
        detect_correction_spec(pasted, current) matches Some((w, r)) ==> plausible_correction(w, r),
{
}

// ---------------------------------------------------------------------
// Executable code

/// Strip leading and trailing punctuation from a word, keeping inner
/// apostrophes and hyphens.
pub fn strip_outer_punct(word: &str) -> (r: String)
    ensures
        r@ == strip_outer_punct_spec(word@),
{
    let v = str_chars(word);
    let s = strip_outer_punct_chars(&v);
    chars_to_string(&s)
}

proof fn lemma_strip_start_skip(s: Seq<char>, i: int)
    requires
        0 <= i <= s.len(),
        forall|j: int| 0 <= j < i ==> is_outer_punct(#[trigger] s[j]),
    ensures
        strip_start_spec(s) == strip_start_spec(s.skip(i)),
    decreases i,
{
    if i > 0 {
        assert(s.skip(1).skip(i - 1) == s.skip(i));
        lemma_strip_start_skip(s.drop_first(), i - 1);
        assert(s.drop_first() == s.skip(1));
    } else {
        assert(s.skip(0) == s);
    }
}

proof fn lemma_strip_end_take(s: Seq<char>, i: int)
    requires
        0 <= i <= s.len(),
        forall|j: int| i <= j < s.len() ==> is_outer_punct(#[trigger] s[j]),
    ensures
        strip_end_spec(s) == strip_end_spec(s.take(i)),
    decreases s.len() - i,
{
    if i < s.len() {
        lemma_strip_end_take(s.drop_last(), i);
        assert(s.drop_last().take(i) == s.take(i));
    } else {
        assert(s.take(i) == s);
    }
}

fn is_outer_punct_exec(c: char) -> (b: bool)
    ensures
        b == is_outer_punct(c),
{
    !is_alphanumeric(c) && c != '\'' && c != '-'
}

pub fn strip_outer_punct_chars(v: &Vec<char>) -> (r: Vec<char>)
    ensures
        r@ == strip_outer_punct_spec(v@),
{
    let n = v.len();
    let mut lo: usize = 0;
    while lo < n && is_outer_punct_exec(v[lo])
        invariant
            lo <= n == v.len(),
            forall|j: int| 0 <= j < lo ==> is_outer_punct(#[trigger] v@[j]),
        decreases n - lo,
    {
        lo = lo + 1;
    }
    proof {
        lemma_strip_start_skip(v@, lo as int);
        if lo < n {
            assert(!is_outer_punct(v@.skip(lo as int)[0]));
        }
    }
    let mut hi: usize = n;
    while hi > lo && is_outer_punct_exec(v[hi - 1])
        invariant
            lo <= hi <= n == v.len(),
            forall|j: int| hi <= j < n ==> is_outer_punct(#[trigger] v@[j]),
        decreases hi - lo,
    {
        hi = hi - 1;
    }
    let ghost t = v@.skip(lo as int);
    proof {
        assert forall|j: int| hi - lo <= j < t.len() implies is_outer_punct(#[trigger] t[j]) by {
            assert(t[j] == v@[j + lo]);
        }
        lemma_strip_end_take(t, hi - lo);
        if hi > lo {
            assert(t.take(hi - lo).last() == v@[hi - 1]);
        }
    }
    let mut r: Vec<char> = Vec::new();
    let mut k: usize = lo;
    while k < hi
        invariant
            lo <= k <= hi <= n == v.len(),
            r@ == v@.subrange(lo as int, k as int),
        decreases hi - k,
    {
        r.push(v[k]);
        assert(v@.subrange(lo as int, k + 1) == v@.subrange(lo as int, k as int).push(v@[k as int]));
        k = k + 1;
    }
    assert(r@ == t.take(hi - lo));
    r
}

/// Levenshtein distance between `a` and `b`, by the row-by-row dynamic
/// programme.
pub fn levenshtein(a: &str, b: &str) -> (d: usize)
    requires
        a@.len() < usize::MAX,
        b@.len() < usize::MAX,
    ensures
        d == lev(a@, b@),
{
    let av = str_chars(a);
    let bv = str_chars(b);
    levenshtein_chars(&av, &bv)
}

pub fn seq_eq_chars(a: &Vec<char>, b: &Vec<char>) -> (r: bool)
    ensures
        r == (a@ == b@),
{
    if a.len() != b.len() {
        return false;
    }
    let mut i: usize = 0;
    while i < a.len()
        invariant
            a.len() == b.len(),
            i <= a.len(),
            forall|j: int| 0 <= j < i ==> a@[j] == b@[j],
        decreases a.len() - i,
    {
        if a[i] != b[i] {
            return false;
        }
        i = i + 1;
    }
    assert(a@ == b@);
    true
}

pub fn levenshtein_chars(a: &Vec<char>, b: &Vec<char>) -> (d: usize)
    requires
        a@.len() < usize::MAX,
        b@.len() < usize::MAX,
    ensures
        d == lev(a@, b@),
{
    if seq_eq_chars(a, b) {
        proof {
            levenshtein_identity(a@);
        }
        return 0;
    }
    let n = a.len();
    let m = b.len();
    if n == 0 {
        return m;
    }
    if m == 0 {
        return n;
    }
    let mut prev: Vec<usize> = Vec::new();
    let mut j: usize = 0;
    while j <= m
        invariant
            j <= m + 1,
            m == b@.len(),
            m < usize::MAX,
            prev@.len() == j,
            forall|k: int| 0 <= k < j ==> prev@[k] == lev(a@.take(0), b@.take(k)),
        decreases m + 1 - j,
    {
        prev.push(j);
        j = j + 1;
    }
    let mut i: usize = 1;
    while i <= n
        invariant
            1 <= i <= n + 1,
            n == a@.len(),
            m == b@.len(),
            n < usize::MAX,
            m < usize::MAX,
            prev@.len() == m + 1,
            forall|k: int| 0 <= k <= m ==> prev@[k] == lev(a@.take(i - 1), b@.take(k)),
        decreases n + 1 - i,
    {
        let mut curr: Vec<usize> = Vec::new();
        curr.push(i);
        assert(curr@[0] == lev(a@.take(i as int), b@.take(0)));
        let mut j: usize = 1;
        while j <= m
            invariant
                1 <= i <= n,
                1 <= j <= m + 1,
                n == a@.len(),
                m == b@.len(),
                n < usize::MAX,
                m < usize::MAX,
                prev@.len() == m + 1,
                curr@.len() == j,
                forall|k: int| 0 <= k <= m ==> prev@[k] == lev(a@.take(i - 1), b@.take(k)),
                forall|k: int| 0 <= k < j ==> curr@[k] == lev(a@.take(i as int), b@.take(k)),
            decreases m + 1 - j,
        {
            let ghost ai = a@.take(i as int);
            let ghost bj = b@.take(j as int);
            proof {
                assert(ai.drop_last() == a@.take(i - 1));
                assert(bj.drop_last() == b@.take(j - 1));
                assert(ai.last() == a@[i - 1]);
                assert(bj.last() == b@[j - 1]);
                levenshtein_at_most_longer(ai, b@.take(j - 1));
                levenshtein_at_most_longer(a@.take(i - 1), bj);
                levenshtein_at_most_longer(a@.take(i - 1), b@.take(j - 1));
            }
            let cost: usize = if a[i - 1] == b[j - 1] { 0 } else { 1 };
            let del = curr[j - 1] + 1;
            let ins = prev[j] + 1;
            let sub = prev[j - 1] + cost;
            let mut best = del;
            if ins < best {
                best = ins;
            }
            if sub < best {
                best = sub;
            }
            assert(best == lev(ai, bj));
            curr.push(best);
            j = j + 1;
        }
        prev = curr;
        i = i + 1;
    }
    assert(a@.take(n as int) == a@);
    assert(b@.take(m as int) == b@);
    prev[m]
}

/// Byte length of the UTF-8 encoding of `v`, capped at `cap + 1`.
fn utf8_len_capped(v: &Vec<char>, cap: usize) -> (r: usize)
    requires
        cap < usize::MAX - 4,
    ensures
        r <= cap ==> r == utf8_len(v@),
        r > cap ==> utf8_len(v@) > cap,
{
    let mut total: usize = 0;
    let mut i: usize = 0;
    while i < v.len()
        invariant
            i <= v.len(),
            cap < usize::MAX - 4,
            total <= cap,
            total == utf8_len(v@.take(i as int)),
        decreases v.len() - i,
    {
        let u = v[i] as u32;
        let w: usize = if u < 0x80 {
            1
        } else if u < 0x800 {
            2
        } else if u < 0x10000 {
            3
        } else {
            4
        };
        assert(v@.take(i + 1).drop_last() == v@.take(i as int));
        assert(w == utf8_width(v@[i as int]));
        if total + w > cap {
            proof {
                lemma_utf8_len_mono(v@, i + 1);
            }
            return total + w;
        }
        total = total + w;
        i = i + 1;
    }
    assert(v@.take(v.len() as int) == v@);
    total
}

proof fn lemma_utf8_len_mono(s: Seq<char>, k: int)
    requires
        0 <= k <= s.len(),
    ensures
        utf8_len(s.take(k)) <= utf8_len(s),
    decreases s.len() - k,
{
    if k < s.len() {
        lemma_utf8_len_mono(s.drop_last(), k);
        assert(s.drop_last().take(k) == s.take(k));
    } else {
        assert(s.take(k) == s);
    }
}

fn words_eq(a: &Vec<char>, b: &Vec<char>) -> (r: bool)
    ensures
        r == (a@ == b@),
{
    seq_eq_chars(a, b)
}

/// Index of the first differing word (the length of the common prefix).
fn common_prefix(p: &Vec<Vec<char>>, c: &Vec<Vec<char>>) -> (k: usize)
    ensures
        k == prefix_from(views(p@), views(c@), 0),
{
    let mut i: usize = 0;
    while i < p.len() && i < c.len() && words_eq(&p[i], &c[i])
        invariant
            i <= p.len(),
            prefix_from(views(p@), views(c@), 0) == prefix_from(views(p@), views(c@), i as nat),
        decreases p.len() - i,
    {
        i = i + 1;
    }
    i
}

/// Number of equal words at the ends.
fn common_suffix(p: &Vec<Vec<char>>, c: &Vec<Vec<char>>) -> (k: usize)
    ensures
        k == suffix_from(views(p@), views(c@), 0),
{
    let mut k: usize = 0;
    while k < p.len() && k < c.len() && words_eq(&p[p.len() - 1 - k], &c[c.len() - 1 - k])
        invariant
            k <= p.len(),
            suffix_from(views(p@), views(c@), 0) == suffix_from(views(p@), views(c@), k as nat),
        decreases p.len() - k,
    {
        k = k + 1;
    }
    k
}

fn lower_eq(a: &Vec<char>, b: &Vec<char>) -> (r: bool)
    ensures
        r == (lower_seq(a@) == lower_seq(b@)),
{
    let la = lower_chars(a);
    let lb = lower_chars(b);
    seq_eq_chars(&la, &lb)
}

/// Detect a likely single-word correction between what was pasted and
/// what the focused field holds now. `None` unless exactly one word
/// changed, and the change is a small edit (distance 1 to 3) between
/// words of 3 to 32 bytes that is not only a change of ASCII case.
pub fn detect_correction(pasted: &str, current: &str) -> (r: Option<MisheardReplacement>)
    ensures
        r is None <==> detect_correction_spec(pasted@, current@) is None,
        r matches Some(m) ==> detect_correction_spec(pasted@, current@) == Some((m.wrong@, m.right@)),
{
    let pv = str_chars(pasted);
    let cv = str_chars(current);
    let pt = trim_chars(&pv);
    let ct = trim_chars(&cv);
    if pt.len() == 0 || ct.len() == 0 {
        return None;
    }
    if seq_eq_chars(&pt, &ct) {
        return None;
    }
    let pw = split_words(&pt);
    let cw = split_words(&ct);
    let prefix = common_prefix(&pw, &cw);
    let suffix = common_suffix(&pw, &cw);
    let p_end = if pw.len() >= suffix { pw.len() - suffix } else { 0 };
    let c_end = if cw.len() >= suffix { cw.len() - suffix } else { 0 };
    if prefix > p_end || prefix > c_end {
        return None;
    }
    if p_end - prefix != 1 || c_end - prefix != 1 {
        return None;
    }
    let ghost pws = views(pw@);
    let ghost cws = views(cw@);
    assert(pws[prefix as int] == pw@[prefix as int]@);
    assert(cws[prefix as int] == cw@[prefix as int]@);
    let wrong = strip_outer_punct_chars(&pw[prefix]);
    let right = strip_outer_punct_chars(&cw[prefix]);
    if wrong.len() == 0 || right.len() == 0 || seq_eq_chars(&wrong, &right) {
        return None;
    }
    let wl = utf8_len_capped(&wrong, MAX_WORD_LEN);
    let rl = utf8_len_capped(&right, MAX_WORD_LEN);
    if wl < MIN_WORD_LEN || rl < MIN_WORD_LEN {
        return None;
    }
    if wl > MAX_WORD_LEN || rl > MAX_WORD_LEN {
        return None;
    }
    proof {
        lemma_utf8_len_ge_len(wrong@);
        lemma_utf8_len_ge_len(right@);
    }
    let dist = levenshtein_chars(&wrong, &right);
    if dist == 0 || dist > MAX_EDIT_DISTANCE {
        return None;
    }
    if lower_eq(&wrong, &right) {
        return None;
    }
    Some(MisheardReplacement { wrong: chars_to_string(&wrong), right: chars_to_string(&right) })
}

proof fn lemma_utf8_len_ge_len(s: Seq<char>)
    ensures
        utf8_len(s) >= s.len(),
    decreases s.len(),
{
    if s.len() > 0 {
        lemma_utf8_len_ge_len(s.drop_last());
    }
}


/// One character's UTF-8 encoding has `utf8_width` bytes.
proof fn lemma_encode_scalar_len(c: char)
    ensures
        vstd::utf8::encode_scalar(c as u32).len() == utf8_width(c),
{
}

/// `utf8_len` peeled from the front.
proof fn lemma_utf8_len_first(s: Seq<char>)
    requires
        s.len() > 0,
    ensures
        utf8_len(s) == utf8_width(s[0]) + utf8_len(s.drop_first()),
    decreases s.len(),
{
    if s.len() > 1 {
        lemma_utf8_len_first(s.drop_last());
        assert(s.drop_last().drop_first() == s.drop_first().drop_last());
        assert(s.drop_last()[0] == s[0]);
        assert(s.drop_first().last() == s.last());
    } else {
        assert(utf8_len(s.drop_last()) == 0);
        assert(utf8_len(s.drop_first()) == 0);
    }
}

/// `utf8_len` is the length of vstd's UTF-8 encoding, which is what
/// `str::len` reports.
pub proof fn lemma_utf8_len_is_encoding_len(s: Seq<char>)
    ensures
        vstd::utf8::encode_utf8(s).len() == utf8_len(s),
    decreases s.len(),
{
    if s.len() > 0 {
        lemma_utf8_len_is_encoding_len(s.drop_first());
        lemma_utf8_len_first(s);
        lemma_encode_scalar_len(s[0]);
    }
}

} // verus!
