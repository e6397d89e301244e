//! Benchmark grading: the graded variants stored next to each capture
//! and the counts the capture list shows. Reading the files is the
//! caller's.
use vstd::prelude::*;
use crate::learning::seq_eq_chars;
use crate::text::{lex_lt, lex_lt_exec, lex_lt_is_strict_total, str_chars};

verus! {

/// One engine/model configuration's result for a capture, with an
/// optional grade and notes.
#[derive(Debug)]
pub struct Variant {
    pub config_id: String,
    pub engine: String,
    pub llm_model: String,
    pub style: String,
    pub raw: String,
    pub formatted: String,
    pub stt_ms: u64,
    pub llm_ms: u64,
    pub grade: Option<u8>,
    pub notes: Option<String>,
}

/// How many of the variants carry a grade.
pub open spec fn graded(v: Seq<Variant>) -> nat
    decreases v.len(),
{
    if v.len() == 0 {
        0
    } else {
        graded(v.drop_last()) + if v.last().grade is Some { 1nat } else { 0nat }
    }
}

proof fn lemma_graded_le(v: Seq<Variant>)
    ensures
        graded(v) <= v.len(),
    decreases v.len(),
{
    if v.len() > 0 {
        lemma_graded_le(v.drop_last());
    }
}

/// The capture list's counts: all variants, and the graded ones (each as
/// a 32-bit count).
pub fn variant_counts(variants: &[Variant]) -> (r: (u32, u32))
    ensures
        r.0 == variants@.len() as u32,
        r.1 == graded(variants@) as u32,
{
    let mut g: usize = 0;
    for i in 0..variants.len()
        invariant
            g == graded(variants@.take(i as int)),
    {
        proof {
            lemma_graded_le(variants@.take(i as int));
        }
        assert(variants@.take(i + 1).drop_last() == variants@.take(i as int));
        if variants[i].grade.is_some() {
            g = g + 1;
        }
    }
    assert(variants@.take(variants.len() as int) == variants@);
    (variants.len() as u32, g as u32)
}

/// A capture's sort key: when it was captured, then its file name.
pub open spec fn key_view(k: (String, String)) -> (Seq<char>, Seq<char>) {
    (k.0@, k.1@)
}

/// Newest first: a later capture time comes first; on equal times, the
/// later file name (in code-point order).
pub open spec fn key_before(a: (Seq<char>, Seq<char>), b: (Seq<char>, Seq<char>)) -> bool {
    lex_lt(b.0, a.0) || (a.0 == b.0 && lex_lt(b.1, a.1))
}

/// `order` with `i` inserted before the first index whose key it goes
/// before (after all keys it ties with: the order is stable).
pub open spec fn insert_index(keys: Seq<(Seq<char>, Seq<char>)>, order: Seq<int>, i: int) -> Seq<int>
    decreases order.len(),
{
    if order.len() == 0 {
        seq![i]
    } else if key_before(keys[i], keys[order[0]]) {
        seq![i] + order
    } else {
        seq![order[0]] + insert_index(keys, order.drop_first(), i)
    }
}

/// The first `n` captures' indices, newest first (a stable insertion
/// sort on [`key_before`]).
pub open spec fn newest_first_spec(keys: Seq<(Seq<char>, Seq<char>)>, n: nat) -> Seq<int>
    decreases n,
{
    if n == 0 {
        Seq::empty()
    } else {
        insert_index(keys, newest_first_spec(keys, (n - 1) as nat), n - 1)
    }
}

fn key_before_exec(a: &(String, String), b: &(String, String)) -> (r: bool)
    ensures
        r == key_before(key_view(*a), key_view(*b)),
{
    let a0 = str_chars(a.0.as_str());
    let a1 = str_chars(a.1.as_str());
    let b0 = str_chars(b.0.as_str());
    let b1 = str_chars(b.1.as_str());
    lex_lt_exec(&b0, &a0) || (seq_eq_chars(&a0, &b0) && lex_lt_exec(&b1, &a1))
}

proof fn lemma_insert_index_at(keys: Seq<(Seq<char>, Seq<char>)>, order: Seq<int>, i: int, k: int)
    requires
        0 <= k <= order.len(),
        forall|j: int| 0 <= j < k ==> !key_before(keys[i], keys[#[trigger] order[j]]),
        k < order.len() ==> key_before(keys[i], keys[order[k]]),
    ensures
        insert_index(keys, order, i) == order.take(k) + seq![i] + order.skip(k),
    decreases k,
{
    if k == 0 {
        assert(order.skip(0) == order);
        assert(order.take(0) + seq![i] + order == seq![i] + order);
    } else {
        let t = order.drop_first();
        assert forall|j: int| 0 <= j < k - 1 implies !key_before(keys[i], keys[#[trigger] t[j]]) by {
            assert(t[j] == order[j + 1]);
        }
        if k - 1 < t.len() {
            assert(t[k - 1] == order[k]);
        }
        lemma_insert_index_at(keys, t, i, k - 1);
        assert(order.take(k) + seq![i] + order.skip(k) == seq![order[0]] + (t.take(k - 1) + seq![i] + t.skip(k - 1)));
    }
}

/// The capture list's order: indices into `keys` (capture time, file
/// name), newest first.
pub fn newest_first(keys: &[(String, String)]) -> (order: Vec<usize>)
    ensures
        order@.map_values(|i: usize| i as int) == newest_first_spec(keys@.map_values(|k: (String, String)| key_view(k)), keys@.len()),
        forall|j: int| 0 <= j < order@.len() ==> #[trigger] order@[j] < keys@.len(),
{
    let ghost kv = keys@.map_values(|k: (String, String)| key_view(k));
    let mut out: Vec<usize> = Vec::new();
    for i in 0..keys.len()
        invariant
            kv == keys@.map_values(|k: (String, String)| key_view(k)),
            out@.map_values(|x: usize| x as int) == newest_first_spec(kv, i as nat),
            forall|j: int| 0 <= j < out@.len() ==> #[trigger] out@[j] < i,
    {
        let ghost before = out@.map_values(|x: usize| x as int);
        let mut k: usize = 0;
        while k < out.len() && !key_before_exec(&keys[i], &keys[out[k]])
            invariant
                k <= out.len(),
                i < keys@.len(),
                kv == keys@.map_values(|k: (String, String)| key_view(k)),
                before == out@.map_values(|x: usize| x as int),
                forall|j: int| 0 <= j < out@.len() ==> #[trigger] out@[j] < i,
                forall|j: int| 0 <= j < k ==> !key_before(kv[i as int], kv[#[trigger] before[j]]),
            decreases out.len() - k,
        {
            assert(before[k as int] == out@[k as int] as int);
            assert(kv[out@[k as int] as int] == key_view(keys@[out@[k as int] as int]));
            k = k + 1;
        }
        proof {
            if k < out.len() {
                assert(before[k as int] == out@[k as int] as int);
                assert(kv[out@[k as int] as int] == key_view(keys@[out@[k as int] as int]));
            }
            assert(kv[i as int] == key_view(keys@[i as int]));
            lemma_insert_index_at(kv, before, i as int, k as int);
        }
        out.insert(k, i);
        assert(out@.map_values(|x: usize| x as int) == before.take(k as int) + seq![i as int] + before.skip(k as int));
    }
    out
}

/// No later entry of `order` goes before an earlier one.
pub open spec fn newest_first_sorted(keys: Seq<(Seq<char>, Seq<char>)>, order: Seq<int>) -> bool {
    forall|j: int, k: int|
        0 <= j < k < order.len() ==> !key_before(#[trigger] keys[order[k]], #[trigger] keys[order[j]])
}

proof fn lemma_key_before_order(a: (Seq<char>, Seq<char>), b: (Seq<char>, Seq<char>), c: (Seq<char>, Seq<char>))
    ensures
        key_before(a, b) ==> !key_before(b, a),
        key_before(a, b) && key_before(b, c) ==> key_before(a, c),
{
    lex_lt_is_strict_total(b.0, a.0, a.0);
    lex_lt_is_strict_total(c.0, b.0, a.0);
    lex_lt_is_strict_total(b.1, a.1, a.1);
    lex_lt_is_strict_total(c.1, b.1, a.1);
    lex_lt_is_strict_total(a.0, b.0, b.0);
    lex_lt_is_strict_total(a.1, b.1, b.1);
}

proof fn lemma_insert_not_before(keys: Seq<(Seq<char>, Seq<char>)>, order: Seq<int>, i: int, x: int)
    requires
        forall|p: int| 0 <= p < order.len() ==> !key_before(#[trigger] keys[order[p]], keys[x]),
        !key_before(keys[i], keys[x]),
    ensures
        forall|m: int| 0 <= m < insert_index(keys, order, i).len() ==> !key_before(
            #[trigger] keys[insert_index(keys, order, i)[m]],
            keys[x],
        ),
    decreases order.len(),
{
    let r = insert_index(keys, order, i);
    if order.len() == 0 {
    } else if key_before(keys[i], keys[order[0]]) {
        assert forall|m: int| 0 <= m < r.len() implies !key_before(#[trigger] keys[r[m]], keys[x]) by {
            if m > 0 {
                assert(r[m] == order[m - 1]);
            }
        }
    } else {
        let t = order.drop_first();
        assert forall|p: int| 0 <= p < t.len() implies !key_before(#[trigger] keys[t[p]], keys[x]) by {
            assert(t[p] == order[p + 1]);
        }
        lemma_insert_not_before(keys, t, i, x);
        let rest = insert_index(keys, t, i);
        assert forall|m: int| 0 <= m < r.len() implies !key_before(#[trigger] keys[r[m]], keys[x]) by {
            if m > 0 {
                assert(r[m] == rest[m - 1]);
            }
        }
    }
}

proof fn lemma_insert_keeps_sorted(keys: Seq<(Seq<char>, Seq<char>)>, order: Seq<int>, i: int)
    requires
        newest_first_sorted(keys, order),
    ensures
        newest_first_sorted(keys, insert_index(keys, order, i)),
    decreases order.len(),
{
    let r = insert_index(keys, order, i);
    if order.len() == 0 {
    } else if key_before(keys[i], keys[order[0]]) {
        assert forall|j: int, k: int| 0 <= j < k < r.len() implies !key_before(
            #[trigger] keys[r[k]],
            #[trigger] keys[r[j]],
        ) by {
            assert(r[k] == order[k - 1]);
            if j == 0 {
                lemma_key_before_order(keys[order[k - 1]], keys[i], keys[order[0]]);
                if k - 1 > 0 {
                    assert(!key_before(keys[order[k - 1]], keys[order[0]]));
                }
            } else {
                assert(r[j] == order[j - 1]);
            }
        }
    } else {
        let t = order.drop_first();
        assert forall|j: int, k: int| 0 <= j < k < t.len() implies !key_before(
            #[trigger] keys[t[k]],
            #[trigger] keys[t[j]],
        ) by {
            assert(t[k] == order[k + 1]);
            assert(t[j] == order[j + 1]);
        }
        lemma_insert_keeps_sorted(keys, t, i);
        assert forall|p: int| 0 <= p < t.len() implies !key_before(#[trigger] keys[t[p]], keys[order[0]]) by {
            assert(t[p] == order[p + 1]);
        }
        lemma_insert_not_before(keys, t, i, order[0]);
        let rest = insert_index(keys, t, i);
        assert forall|j: int, k: int| 0 <= j < k < r.len() implies !key_before(
            #[trigger] keys[r[k]],
            #[trigger] keys[r[j]],
        ) by {
            assert(r[k] == rest[k - 1]);
            if j > 0 {
                assert(r[j] == rest[j - 1]);
            }
        }
    }
}

/// The capture list comes out newest first: no capture is listed after
/// one it goes before (by capture time, then file name).
pub proof fn capture_list_is_newest_first(keys: Seq<(Seq<char>, Seq<char>)>, n: nat)
    ensures
        newest_first_sorted(keys, newest_first_spec(keys, n)),
    decreases n,
{
    if n > 0 {
        capture_list_is_newest_first(keys, (n - 1) as nat);
        lemma_insert_keeps_sorted(keys, newest_first_spec(keys, (n - 1) as nat), n - 1);
    }
}

} // verus!
