//! Streaming transcript stabilisation (Local-Agreement-2) and the
//! commit-and-roll bookkeeping around it.
//!
//! Each partial pass yields word tokens. Tokens on which this pass and
//! the previous one agree form a committed prefix that will not change;
//! the rest is tentative. When the audio buffer grows past a threshold,
//! the committed text is frozen, the audio is trimmed to a short overlap,
//! and the words of the overlap that the next pass re-transcribes are
//! removed again by [`dedupe_suffix_prefix`].
use vstd::prelude::*;
use crate::learning::prefix_from;
use crate::text::{
    char_alphanumeric, is_alphanumeric, join, lower, push_chars, split_words, str_chars, to_lower,
    views, words,
};

verus! {

/// What the pill renders during capture.
#[derive(Debug)]
pub struct StreamingPartial {
    /// Tokens that this pass and the previous one agree on.
    pub committed: String,
    /// The rest of this pass; may still change.
    pub tentative: String,
    /// Milliseconds since the dictation started.
    pub at_ms: u64,
}

/// Longest suffix/prefix overlap that [`dedupe_suffix_prefix`] looks for.
pub const MAX_DEDUPE_OVERLAP: usize = 15;

pub open spec fn str_views(s: Seq<String>) -> Seq<Seq<char>> {
    s.map_values(|t: String| t@)
}

/// `s` with everything but alphanumeric characters removed.
pub open spec fn alnum_only(s: Seq<char>) -> Seq<char>
    decreases s.len(),
{
    if s.len() == 0 {
        s
    } else if char_alphanumeric(s.last()) {
        alnum_only(s.drop_last()).push(s.last())
    } else {
        alnum_only(s.drop_last())
    }
}

/// The token as the de-duplication compares it: alphanumeric characters
/// only, ASCII-lowercased.
pub open spec fn norm_token(t: Seq<char>) -> Seq<char> {
    alnum_only(t).map_values(|c: char| lower(c))
}

/// The last `k` tokens of `frozen` equal the first `k` tokens of `fresh`,
/// token by token after normalisation.
pub open spec fn tail_matches_head(frozen: Seq<Seq<char>>, fresh: Seq<Seq<char>>, k: int) -> bool {
    &&& 0 <= k <= frozen.len()
    &&& k <= fresh.len()
    &&& forall|j: int|
        0 <= j < k ==> #[trigger] norm_token(frozen[frozen.len() - k + j]) == norm_token(fresh[j])
}

/// The largest `k <= limit` (or 0) with a matching overlap.
pub open spec fn overlap_from(frozen: Seq<Seq<char>>, fresh: Seq<Seq<char>>, limit: int) -> int
    decreases limit,
{
    if limit <= 0 {
        0
    } else if tail_matches_head(frozen, fresh, limit) {
        limit
    } else {
        overlap_from(frozen, fresh, limit - 1)
    }
}

pub open spec fn min_int(a: int, b: int) -> int {
    if a <= b {
        a
    } else {
        b
    }
}

/// Result of [`dedupe_suffix_prefix`].
pub open spec fn dedupe_spec(frozen: Seq<char>, fresh: Seq<char>) -> Seq<char> {
    if frozen.len() == 0 || fresh.len() == 0 {
        fresh
    } else {
        let fz = words(frozen);
        let fr = words(fresh);
        let limit = min_int(min_int(fz.len() as int, fr.len() as int), MAX_DEDUPE_OVERLAP as int);
        let k = overlap_from(fz, fr, limit);
        if k > 0 {
            join(fr.skip(k), seq![' '])
        } else {
            fresh
        }
    }
}

/// Number of leading tokens on which `current` agrees with `prev`.
pub open spec fn agreement(prev: Option<Seq<Seq<char>>>, current: Seq<Seq<char>>) -> nat {
    match prev {
        Some(p) => prefix_from(current, p, 0),
        None => 0,
    }
}

/// `(committed, tentative)` of Local-Agreement-2.
pub open spec fn la2_spec(prev: Option<Seq<Seq<char>>>, current: Seq<Seq<char>>) -> (Seq<char>, Seq<char>) {
    let n = agreement(prev, current);
    (join(current.take(n as int), seq![' ']), join(current.skip(n as int), seq![' ']))
}

// ---------------------------------------------------------------------

proof fn lemma_prefix_from_agrees(p: Seq<Seq<char>>, c: Seq<Seq<char>>, i: nat)
    requires
        i <= p.len(),
        i <= c.len(),
        forall|j: int| 0 <= j < i ==> p[j] == c[j],
    ensures
        prefix_from(p, c, i) <= p.len(),
        prefix_from(p, c, i) <= c.len(),
        forall|j: int| 0 <= j < prefix_from(p, c, i) ==> p[j] == c[j],
    decreases p.len() - i,
{
    if i < p.len() && i < c.len() && p[i as int] == c[i as int] {
        lemma_prefix_from_agrees(p, c, i + 1);
    }
}

/// Local-Agreement-2 commits exactly the longest common token prefix of
/// the two passes: the committed tokens agree with the previous pass, the
/// next token (if both passes have one) differs, and committed plus
/// tentative tokens are the whole current pass. The first pass commits
/// nothing.
pub proof fn la2_commits_longest_common_prefix(prev: Option<Seq<Seq<char>>>, current: Seq<Seq<char>>)
    ensures
        ({
            let n = agreement(prev, current);
            &&& n <= current.len()
            &&& current.take(n as int) + current.skip(n as int) == current
            &&& prev is None ==> n == 0
            &&& prev matches Some(p) ==> {
                &&& n <= p.len()
                &&& forall|j: int| 0 <= j < n ==> #[trigger] current[j] == p[j]
                &&& (n < current.len() && n < p.len()) ==> current[n as int] != p[n as int]
            }
        }),
{
    match prev {
        Some(p) => {
            lemma_prefix_from_agrees(current, p, 0);
            lemma_prefix_from_stops(current, p, 0);
        },
        None => {},
    }
    let n = agreement(prev, current);
    assert(current.take(n as int) + current.skip(n as int) == current);
}

proof fn lemma_prefix_from_stops(p: Seq<Seq<char>>, c: Seq<Seq<char>>, i: nat)
    requires
        i <= p.len(),
    ensures
        (prefix_from(p, c, i) < p.len() && prefix_from(p, c, i) < c.len()) ==> p[prefix_from(p, c, i) as int]
            != c[prefix_from(p, c, i) as int],
    decreases p.len() - i,
{
    if i < p.len() && i < c.len() && p[i as int] == c[i as int] {
        lemma_prefix_from_stops(p, c, i + 1);
    }
}

proof fn lemma_overlap_from(fz: Seq<Seq<char>>, fr: Seq<Seq<char>>, limit: int)
    requires
        0 <= limit <= fz.len(),
        limit <= fr.len(),
    ensures
        0 <= overlap_from(fz, fr, limit) <= limit,
        overlap_from(fz, fr, limit) > 0 ==> tail_matches_head(fz, fr, overlap_from(fz, fr, limit)),
        forall|k2: int| overlap_from(fz, fr, limit) < k2 <= limit ==> !#[trigger] tail_matches_head(fz, fr, k2),
    decreases limit,
{
    if limit > 0 && !tail_matches_head(fz, fr, limit) {
        lemma_overlap_from(fz, fr, limit - 1);
    }
}

/// The words of `w`, normalised as the de-duplication compares them.
pub open spec fn normalised(w: Seq<Seq<char>>) -> Seq<Seq<char>> {
    w.map_values(|t: Seq<char>| norm_token(t))
}

/// De-duplication drops from the fresh words exactly the longest overlap
/// (of at most [`MAX_DEDUPE_OVERLAP`] words) whose words all equal, after
/// normalisation, the last words of the frozen text, in order; without
/// such an overlap the fresh text is kept as it is.
pub proof fn dedupe_drops_the_longest_matching_overlap(frozen: Seq<char>, fresh: Seq<char>)
    ensures
        ({
            let fz = words(frozen);
            let fr = words(fresh);
            let lim = min_int(min_int(fz.len() as int, fr.len() as int), MAX_DEDUPE_OVERLAP as int);
            exists|k: int|
                #![trigger fr.skip(k)]
                0 <= k <= lim
                && normalised(fz.skip(fz.len() - k)) == normalised(fr.take(k))
                && (forall|k2: int| k < k2 <= lim ==> normalised(fz.skip(fz.len() - k2)) != normalised(#[trigger] fr.take(k2)))
                && dedupe_spec(frozen, fresh) == if k > 0 {
                    join(fr.skip(k), seq![' '])
                } else {
                    fresh
                }
        }),
{
    let fz = words(frozen);
    let fr = words(fresh);
    let lim = min_int(min_int(fz.len() as int, fr.len() as int), MAX_DEDUPE_OVERLAP as int);
    let k = if frozen.len() == 0 || fresh.len() == 0 {
        0
    } else {
        overlap_from(fz, fr, lim)
    };
    if frozen.len() == 0 {
        assert(fz.len() == 0);
    }
    if fresh.len() == 0 {
        assert(fr.len() == 0);
    }
    lemma_overlap_from(fz, fr, lim);
    if k > 0 {
        assert(tail_matches_head(fz, fr, k));
    }
    assert(normalised(fz.skip(fz.len() - k)) =~= normalised(fr.take(k))) by {
        assert forall|j: int| 0 <= j < k implies normalised(fz.skip(fz.len() - k))[j] == normalised(fr.take(k))[j] by {
            assert(tail_matches_head(fz, fr, k));
            assert(norm_token(fz[fz.len() - k + j]) == norm_token(fr[j]));
        }
    }
    assert forall|k2: int| k < k2 <= lim implies normalised(fz.skip(fz.len() - k2)) != normalised(#[trigger] fr.take(k2)) by {
        assert(!tail_matches_head(fz, fr, k2));
        let j = choose|j: int| 0 <= j < k2 && norm_token(#[trigger] fz[fz.len() - k2 + j]) != norm_token(fr[j]);
        assert(normalised(fz.skip(fz.len() - k2))[j] != normalised(fr.take(k2))[j]);
    }
    assert(dedupe_spec(frozen, fresh) == if k > 0 {
        join(fr.skip(k), seq![' '])
    } else {
        fresh
    });
    assert(fr.skip(k) == fr.skip(k));
}

/// Freezing committed text only ever appends: the text frozen so far is
/// a prefix of the result.
pub proof fn frozen_text_only_grows(frozen: Seq<char>, chunk: Seq<char>)
    ensures
        freeze_spec(frozen, chunk).len() >= frozen.len(),
        freeze_spec(frozen, chunk).take(frozen.len() as int) == frozen,
{
    if chunk.len() > 0 && frozen.len() > 0 {
        assert((frozen + seq![' '] + chunk).take(frozen.len() as int) == frozen);
    } else {
        assert(frozen.take(frozen.len() as int) == frozen);
    }
}

/// The committed text shown for a pass always starts with the frozen
/// text: a partial never takes back what was frozen.
pub proof fn display_keeps_frozen_text(frozen: Seq<char>, committed: Seq<char>)
    ensures
        display_spec(frozen, committed).len() >= frozen.len(),
        display_spec(frozen, committed).take(frozen.len() as int) == frozen,
{
    let d = dedupe_spec(frozen, committed);
    if frozen.len() == 0 {
        assert(committed.take(0) == frozen);
    } else if d.len() == 0 {
        assert(frozen.take(frozen.len() as int) == frozen);
    } else {
        assert((frozen + seq![' '] + d).take(frozen.len() as int) == frozen);
    }
}

/// The characters of every string in `parts[lo..hi]`, joined by single
/// spaces.
fn join_range(parts: &[String], lo: usize, hi: usize) -> (s: String)
    requires
        lo <= hi <= parts@.len(),
    ensures
        s@ == join(str_views(parts@).subrange(lo as int, hi as int), seq![' ']),
{
    let mut s = String::new();
    let mut i: usize = lo;
    let ghost all = str_views(parts@);
    while i < hi
        invariant
            lo <= i <= hi <= parts@.len(),
            all == str_views(parts@),
            s@ == join(all.subrange(lo as int, i as int), seq![' ']),
        decreases hi - i,
    {
        let ghost before = all.subrange(lo as int, i as int);
        let ghost after = all.subrange(lo as int, i + 1);
        assert(after.drop_last() == before);
        assert(after.last() == parts@[i as int]@);
        if i > lo {
            crate::text::push_char(&mut s, ' ');
        }
        let t = str_chars(parts[i].as_str());
        push_chars(&mut s, &t);
        proof {
            if i > lo {
                assert(s@ == join(before, seq![' ']) + seq![' '] + after.last());
            }
        }
        i = i + 1;
    }
    s
}

/// Local-Agreement-2: given the previous pass's tokens (none on the first
/// pass) and this pass's, return `(committed, tentative)`: the longest
/// common token prefix and the rest of this pass, each joined by spaces.
pub fn local_agreement_2(prev: Option<&[String]>, current: &[String]) -> (r: (String, String))
    ensures
        (r.0@, r.1@) == la2_spec(
            match prev {
                Some(p) => Some(str_views(p@)),
                None => None,
            },
            str_views(current@),
        ),
{
    let ghost cur = str_views(current@);
    let n: usize = match prev {
        Some(p) => {
            let ghost pv = str_views(p@);
            let mut i: usize = 0;
            while i < current.len() && i < p.len() && current[i] == p[i]
                invariant
                    i <= current@.len(),
                    cur == str_views(current@),
                    pv == str_views(p@),
                    prefix_from(cur, pv, 0) == prefix_from(cur, pv, i as nat),
                decreases current@.len() - i,
            {
                assert(cur[i as int] == current@[i as int]@);
                assert(pv[i as int] == p@[i as int]@);
                i = i + 1;
            }
            proof {
                if i < current@.len() && i < p@.len() {
                    assert(cur[i as int] == current@[i as int]@);
                    assert(pv[i as int] == p@[i as int]@);
                }
            }
            i
        },
        None => 0,
    };
    let committed = join_range(current, 0, n);
    let tentative = join_range(current, n, current.len());
    assert(cur.subrange(0, n as int) == cur.take(n as int));
    assert(cur.subrange(n as int, cur.len() as int) == cur.skip(n as int));
    (committed, tentative)
}

fn norm_token_exec(t: &Vec<char>) -> (r: Vec<char>)
    ensures
        r@ == norm_token(t@),
{
    let mut r: Vec<char> = Vec::new();
    let ghost kept: Seq<char> = Seq::empty();
    let mut i: usize = 0;
    while i < t.len()
        invariant
            i <= t.len(),
            r@ == norm_token(t@.take(i as int)),
        decreases t.len() - i,
    {
        let c = t[i];
        assert(t@.take(i + 1).drop_last() == t@.take(i as int));
        assert(t@.take(i + 1).last() == c);
        if is_alphanumeric(c) {
            r.push(to_lower(c));
        }
        i = i + 1;
    }
    assert(t@.take(t.len() as int) == t@);
    r
}

fn tail_matches_head_exec(fz: &Vec<Vec<char>>, fr: &Vec<Vec<char>>, k: usize) -> (b: bool)
    requires
        k <= fz.len(),
        k <= fr.len(),
    ensures
        b == tail_matches_head(views(fz@), views(fr@), k as int),
{
    let ghost fzs = views(fz@);
    let ghost frs = views(fr@);
    let base = fz.len() - k;
    let mut j: usize = 0;
    while j < k
        invariant
            j <= k <= fz.len(),
            k <= fr.len(),
            base == fz.len() - k,
            fzs == views(fz@),
            frs == views(fr@),
            forall|i: int| 0 <= i < j ==> #[trigger] norm_token(fzs[fzs.len() - k + i]) == norm_token(frs[i]),
        decreases k - j,
    {
        let a = norm_token_exec(&fz[base + j]);
        let b = norm_token_exec(&fr[j]);
        assert(fzs[fzs.len() - k + j] == fz@[base + j]@);
        assert(frs[j as int] == fr@[j as int]@);
        if !crate::learning::seq_eq_chars(&a, &b) {
            return false;
        }
        assert(a@ == b@);
        j = j + 1;
    }
    true
}

/// Remove from `fresh` the leading words that repeat the last words of
/// `frozen` (compared case- and punctuation-insensitively, at most
/// [`MAX_DEDUPE_OVERLAP`] words). Without such an overlap, `fresh` is
/// returned unchanged.
pub fn dedupe_suffix_prefix(frozen: &str, fresh: &str) -> (r: String)
    ensures
        r@ == dedupe_spec(frozen@, fresh@),
{
    if frozen.is_empty() || fresh.is_empty() {
        return fresh.to_string();
    }
    let fzc = str_chars(frozen);
    let frc = str_chars(fresh);
    let fz = split_words(&fzc);
    let fr = split_words(&frc);
    let mut limit = if fz.len() < fr.len() { fz.len() } else { fr.len() };
    if limit > MAX_DEDUPE_OVERLAP {
        limit = MAX_DEDUPE_OVERLAP;
    }
    let ghost fzs = views(fz@);
    let ghost frs = views(fr@);
    let ghost full = limit as int;
    assert(fzs == words(frozen@));
    assert(frs == words(fresh@));
    assert(fzs.len() == fz@.len());
    assert(frs.len() == fr@.len());
    assert(full == min_int(min_int(fzs.len() as int, frs.len() as int), MAX_DEDUPE_OVERLAP as int));
    let mut k = limit;
    while k > 0
        invariant
            k <= limit,
            limit <= fz.len(),
            limit <= fr.len(),
            overlap_from(fzs, frs, full) == overlap_from(fzs, frs, k as int),
            full == min_int(min_int(fzs.len() as int, frs.len() as int), MAX_DEDUPE_OVERLAP as int),
            fzs == words(frozen@),
            frs == words(fresh@),
            frozen@.len() != 0,
            fresh@.len() != 0,
            fzs == views(fz@),
            frs == views(fr@),
        decreases k,
    {
        if tail_matches_head_exec(&fz, &fr, k) {
            assert(overlap_from(fzs, frs, k as int) == k as int);
            let rest = join_skip(&fr, k);
            assert(overlap_from(fzs, frs, full) == k as int);
            assert(rest@ == join(frs.skip(k as int), seq![' ']));
            return rest;
        }
        k = k - 1;
    }
    fresh.to_string()
}

/// `parts[k..]` joined by single spaces.
fn join_skip(parts: &Vec<Vec<char>>, k: usize) -> (s: String)
    requires
        k <= parts.len(),
    ensures
        s@ == join(views(parts@).skip(k as int), seq![' ']),
{
    let mut s = String::new();
    let mut i: usize = k;
    let ghost all = views(parts@);
    while i < parts.len()
        invariant
            k <= i <= parts.len(),
            all == views(parts@),
            s@ == join(all.subrange(k as int, i as int), seq![' ']),
        decreases parts.len() - i,
    {
        let ghost before = all.subrange(k as int, i as int);
        let ghost after = all.subrange(k as int, i + 1);
        assert(after.drop_last() == before);
        assert(after.last() == parts@[i as int]@);
        if i > k {
            crate::text::push_char(&mut s, ' ');
        }
        push_chars(&mut s, &parts[i]);
        i = i + 1;
    }
    assert(all.subrange(k as int, parts.len() as int) == all.skip(k as int));
    s
}


/// Samples per second of the audio the transcriber receives.
pub const SAMPLE_RATE: usize = 16_000;

/// How often a partial pass may be dispatched, in milliseconds.
pub const PARTIAL_INTERVAL_MS: u64 = 800;

/// No partial pass on less than this many samples (1 s).
pub const MIN_PARTIAL_SAMPLES: usize = 16_000;

/// Buffer length at which the commit-and-roll happens (20 s).
pub const ROLL_THRESHOLD_SAMPLES: usize = 320_000;

/// Audio kept as overlap after a roll (3 s).
pub const ROLL_KEEP_SAMPLES: usize = 48_000;

/// Bookkeeping of one streaming dictation. The audio itself is held by
/// the caller; this state tracks its length and decides when the front
/// of it is dropped and when a partial pass is due.
pub struct StreamingState {
    /// Samples in the live buffer since the last roll.
    pub buffer_len: usize,
    /// Tokens of the two most recent passes (older, newer).
    pub last_two: Option<(Vec<String>, Vec<String>)>,
    /// Clock reading (ms) of the last dispatched pass.
    pub last_tick_ms: u64,
    /// Committed text frozen by earlier rolls.
    pub frozen_text: String,
    /// Committed text of the latest pass, frozen on the next roll.
    pub last_committed: String,
}

/// What [`StreamingState::maybe_tick`] asks of the caller.
#[derive(Debug, Clone, Copy, PartialEq, Eq, Structural)]
pub struct TickDecision {
    /// Drop this many samples from the front of the audio buffer.
    pub drop_front: usize,
    /// Send the (remaining) buffer to the worker for a partial pass.
    pub dispatch: bool,
}

/// Frozen text after freezing `chunk` onto `frozen`.
pub open spec fn freeze_spec(frozen: Seq<char>, chunk: Seq<char>) -> Seq<char> {
    if chunk.len() == 0 {
        frozen
    } else if frozen.len() == 0 {
        chunk
    } else {
        frozen + seq![' '] + chunk
    }
}

/// The committed text shown for a pass: frozen text followed by the new
/// committed words, with the overlap removed.
pub open spec fn display_spec(frozen: Seq<char>, committed: Seq<char>) -> Seq<char> {
    if frozen.len() == 0 {
        committed
    } else {
        let d = dedupe_spec(frozen, committed);
        if d.len() == 0 {
            frozen
        } else {
            frozen + seq![' '] + d
        }
    }
}

impl StreamingState {
    /// A fresh state whose clock starts at `now_ms`.
    pub fn new(now_ms: u64) -> (s: StreamingState)
        ensures
            s.buffer_len == 0,
            s.last_two is None,
            s.last_tick_ms == now_ms,
            s.frozen_text@.len() == 0,
            s.last_committed@.len() == 0,
    {
        StreamingState {
            buffer_len: 0,
            last_two: None,
            last_tick_ms: now_ms,
            frozen_text: String::new(),
            last_committed: String::new(),
        }
    }

    /// Record that `samples` more samples were appended to the buffer.
    pub fn push_audio(&mut self, samples: usize)
        ensures
            final(self).buffer_len == if old(self).buffer_len + samples <= usize::MAX {
                (old(self).buffer_len + samples) as usize
            } else {
                usize::MAX
            },
            final(self).last_tick_ms == old(self).last_tick_ms,
            final(self).frozen_text@ == old(self).frozen_text@,
            final(self).last_committed@ == old(self).last_committed@,
            final(self).last_two == old(self).last_two,
    {
        self.buffer_len = self.buffer_len.saturating_add(samples);
    }

    /// Roll the buffer forward when it has reached
    /// [`ROLL_THRESHOLD_SAMPLES`] (freezing the latest committed text and
    /// keeping [`ROLL_KEEP_SAMPLES`] of overlap), then decide whether a
    /// partial pass is due at `now_ms`.
    pub fn maybe_tick(&mut self, now_ms: u64) -> (d: TickDecision)
        ensures
            ({
                let rolled = old(self).buffer_len >= ROLL_THRESHOLD_SAMPLES;
                let len = if rolled { ROLL_KEEP_SAMPLES } else { old(self).buffer_len };
                let elapsed = if now_ms >= old(self).last_tick_ms {
                    now_ms - old(self).last_tick_ms
                } else {
                    0
                };
                let due = elapsed >= PARTIAL_INTERVAL_MS && len >= MIN_PARTIAL_SAMPLES;
                &&& d.drop_front == if rolled {
                    old(self).buffer_len - ROLL_KEEP_SAMPLES
                } else {
                    0
                }
                &&& d.dispatch == due
                &&& final(self).buffer_len == len
                &&& final(self).frozen_text@ == if rolled {
                    freeze_spec(old(self).frozen_text@, old(self).last_committed@)
                } else {
                    old(self).frozen_text@
                }
                &&& final(self).last_committed@ == if rolled {
                    Seq::<char>::empty()
                } else {
                    old(self).last_committed@
                }
                &&& final(self).last_two == if rolled {
                    None
                } else {
                    old(self).last_two
                }
                &&& final(self).last_tick_ms == if due { now_ms } else { old(self).last_tick_ms }
            }),
    {
        let mut drop_front: usize = 0;
        if self.buffer_len >= ROLL_THRESHOLD_SAMPLES {
            let mut chunk = String::new();
            std::mem::swap(&mut chunk, &mut self.last_committed);
            if !chunk.as_str().is_empty() {
                if !self.frozen_text.as_str().is_empty() {
                    crate::text::push_char(&mut self.frozen_text, ' ');
                }
                let cv = str_chars(chunk.as_str());
                push_chars(&mut self.frozen_text, &cv);
            }
            drop_front = self.buffer_len - ROLL_KEEP_SAMPLES;
            self.buffer_len = ROLL_KEEP_SAMPLES;
            self.last_two = None;
        }
        let elapsed = if now_ms >= self.last_tick_ms { now_ms - self.last_tick_ms } else { 0 };
        if elapsed < PARTIAL_INTERVAL_MS || self.buffer_len < MIN_PARTIAL_SAMPLES {
            return TickDecision { drop_front, dispatch: false };
        }
        self.last_tick_ms = now_ms;
        TickDecision { drop_front, dispatch: true }
    }

    /// Take the tokens of a finished partial pass: compute
    /// Local-Agreement-2 against the previous pass, slide the two-pass
    /// window, remember the committed prefix for the next roll, and
    /// return the displayed `(committed, tentative)`.
    pub fn record_pass(&mut self, tokens: Vec<String>) -> (r: (String, String))
        ensures
            ({
                let prev = match old(self).last_two {
                    Some(p) => Some(str_views(p.1@)),
                    None => None,
                };
                let (committed, tentative) = la2_spec(prev, str_views(tokens@));
                &&& r.0@ == display_spec(old(self).frozen_text@, committed)
                &&& r.1@ == tentative
                &&& final(self).last_committed@ == committed
                &&& final(self).frozen_text@ == old(self).frozen_text@
                &&& final(self).buffer_len == old(self).buffer_len
                &&& final(self).last_tick_ms == old(self).last_tick_ms
                &&& final(self).last_two matches Some(p) && str_views(p.1@) == str_views(tokens@)
            }),
    {
        let taken = self.last_two.take();
        let (committed, tentative, next) = match taken {
            Some((_, prev1)) => {
                let (c, t) = local_agreement_2(Some(prev1.as_slice()), tokens.as_slice());
                (c, t, (prev1, tokens))
            },
            None => {
                let (c, t) = local_agreement_2(None, tokens.as_slice());
                (c, t, (Vec::new(), tokens))
            },
        };
        self.last_two = Some(next);
        self.last_committed = committed.clone();
        let display = if self.frozen_text.as_str().is_empty() {
            committed
        } else {
            let deduped = dedupe_suffix_prefix(self.frozen_text.as_str(), committed.as_str());
            if deduped.as_str().is_empty() {
                self.frozen_text.clone()
            } else {
                let mut s = self.frozen_text.clone();
                crate::text::push_char(&mut s, ' ');
                let dv = str_chars(deduped.as_str());
                push_chars(&mut s, &dv);
                s
            }
        };
        (display, tentative)
    }
}

} // verus!
