//! Character and string primitives shared by the rest of the library.
//!
//! Strings are modelled by their `Seq<char>` views. The Unicode
//! predicates that are short to state (`White_Space`, general category
//! `Cc`) are written out here; `char::is_alphanumeric`, whose tables take
//! pages, is named.
use vstd::prelude::*;
use vstd::string::*;

verus! {

/// Unicode `White_Space` property, as `char::is_whitespace` tests it.
pub open spec fn is_ws(c: char) -> bool {
    let u = c as u32;
    ||| 0x09 <= u <= 0x0D
    ||| u == 0x20
    ||| u == 0x85
    ||| u == 0xA0
    ||| u == 0x1680
    ||| 0x2000 <= u <= 0x200A
    ||| u == 0x2028
    ||| u == 0x2029
    ||| u == 0x202F
    ||| u == 0x205F
    ||| u == 0x3000
}

/// Unicode general category `Cc`, as `char::is_control` tests it.
pub open spec fn is_ctrl(c: char) -> bool {
    let u = c as u32;
    u <= 0x1F || (0x7F <= u <= 0x9F)
}

pub open spec fn is_ascii_upper(c: char) -> bool {
    'A' <= c && c <= 'Z'
}

pub open spec fn is_ascii_alnum(c: char) -> bool {
    ('a' <= c && c <= 'z') || ('A' <= c && c <= 'Z') || ('0' <= c && c <= '9')
}

/// `char::to_ascii_lowercase`.
pub open spec fn lower(c: char) -> char {
    if is_ascii_upper(c) {
        ((c as u32) + 32) as char
    } else {
        c
    }
}

pub open spec fn lower_seq(s: Seq<char>) -> Seq<char> {
    s.map_values(|c: char| lower(c))
}

/// What `char::is_alphanumeric` returns for `c` (Unicode `Alphabetic`
/// or numeric general categories).
pub uninterp spec fn char_alphanumeric(c: char) -> bool;

pub fn is_whitespace(c: char) -> (b: bool)
    ensures
        b == is_ws(c),
{
    let u = c as u32;
    (0x09 <= u && u <= 0x0D) || u == 0x20 || u == 0x85 || u == 0xA0 || u == 0x1680 || (0x2000
        <= u && u <= 0x200A) || u == 0x2028 || u == 0x2029 || u == 0x202F || u == 0x205F || u
        == 0x3000
}

pub fn is_control(c: char) -> (b: bool)
    ensures
        b == is_ctrl(c),
{
    let u = c as u32;
    u <= 0x1F || (0x7F <= u && u <= 0x9F)
}

pub fn to_lower(c: char) -> (r: char)
    ensures
        r == lower(c),
{
    if 'A' <= c && c <= 'Z' {
        let u = (c as u32) + 32;
        assert(u < 0xD800);
        char_from_u32_ascii(u)
    } else {
        c
    }
}

fn char_from_u32_ascii(u: u32) -> (c: char)
    requires
        u < 0x80,
    ensures
        c as u32 == u,
{
    (u as u8) as char
}

/// `char::is_alphanumeric`: Unicode `Alphabetic` or numeric. Among ASCII
/// characters exactly the letters and digits qualify; beyond ASCII the
/// result is only named.
#[verifier::external_body]
pub(crate) fn is_alphanumeric(c: char) -> (b: bool)
    ensures
        b == char_alphanumeric(c),
        (c as u32) < 0x80 ==> (b <==> is_ascii_alnum(c)),
{
    c.is_alphanumeric()
}

/// `String::push`: appends one character.
#[verifier::external_body]
pub(crate) fn push_char(s: &mut String, c: char)
    ensures
        final(s)@ == old(s)@.push(c),
{
    s.push(c);
}

/// The characters of `s`, in order.
pub fn str_chars(s: &str) -> (v: Vec<char>)
    ensures
        v@ == s@,
{
    let mut v: Vec<char> = Vec::new();
    for c in it: s.chars()
        invariant
            v@ == it.seq().take(it.index()),
            it.seq() == s@,
    {
        v.push(c);
    }
    v
}


/// `s` with leading `White_Space` removed (`str::trim_start`).
pub open spec fn trim_start_spec(s: Seq<char>) -> Seq<char>
    decreases s.len(),
{
    if s.len() > 0 && is_ws(s[0]) {
        trim_start_spec(s.drop_first())
    } else {
        s
    }
}

/// `s` with trailing `White_Space` removed (`str::trim_end`).
pub open spec fn trim_end_spec(s: Seq<char>) -> Seq<char>
    decreases s.len(),
{
    if s.len() > 0 && is_ws(s.last()) {
        trim_end_spec(s.drop_last())
    } else {
        s
    }
}

/// `str::trim`.
pub open spec fn trim_spec(s: Seq<char>) -> Seq<char> {
    trim_end_spec(trim_start_spec(s))
}

/// The whitespace-separated words of `s` (`str::split_whitespace`).
pub open spec fn words(s: Seq<char>) -> Seq<Seq<char>>
    decreases s.len(),
{
    if s.len() == 0 {
        Seq::empty()
    } else {
        let w = words(s.drop_last());
        let c = s.last();
        if is_ws(c) {
            w
        } else if s.len() >= 2 && !is_ws(s[s.len() - 2]) {
            w.update(w.len() - 1, w.last().push(c))
        } else {
            w.push(seq![c])
        }
    }
}

/// `parts` joined with `sep` between consecutive elements.
pub open spec fn join(parts: Seq<Seq<char>>, sep: Seq<char>) -> Seq<char>
    decreases parts.len(),
{
    if parts.len() == 0 {
        Seq::empty()
    } else if parts.len() == 1 {
        parts[0]
    } else {
        join(parts.drop_last(), sep) + sep + parts.last()
    }
}

/// Does `needle` occur in `hay` at position `i`?
pub open spec fn occurs_at(hay: Seq<char>, needle: Seq<char>, i: int) -> bool {
    0 <= i && i + needle.len() <= hay.len() && hay.subrange(i, i + needle.len()) == needle
}

/// `str::contains` for a string pattern.
pub open spec fn contains_seq(hay: Seq<char>, needle: Seq<char>) -> bool {
    exists|i: int| occurs_at(hay, needle, i)
}

pub open spec fn views(v: Seq<Vec<char>>) -> Seq<Seq<char>> {
    v.map_values(|w: Vec<char>| w@)
}

/// Builds a `String` holding exactly `v`.
pub fn chars_to_string(v: &Vec<char>) -> (s: String)
    ensures
        s@ == v@,
{
    let mut s = String::new();
    for i in 0..v.len()
        invariant
            s@ == v@.take(i as int),
    {
        push_char(&mut s, v[i]);
        assert(v@.take(i + 1) == v@.take(i as int).push(v@[i as int]));
    }
    assert(v@.take(v.len() as int) == v@);
    s
}

/// Appends all of `v` to `s`.
pub fn push_chars(s: &mut String, v: &Vec<char>)
    ensures
        final(s)@ == old(s)@ + v@,
{
    let ghost s0 = s@;
    for i in 0..v.len()
        invariant
            s@ == s0 + v@.take(i as int),
    {
        push_char(s, v[i]);
        assert(v@.take(i + 1) == v@.take(i as int).push(v@[i as int]));
    }
    assert(v@.take(v.len() as int) == v@);
}

proof fn lemma_trim_start_skip(s: Seq<char>, i: int)
    requires
        0 <= i <= s.len(),
        forall|j: int| 0 <= j < i ==> is_ws(#[trigger] s[j]),
    ensures
        trim_start_spec(s) == trim_start_spec(s.skip(i)),
    decreases i,
{
    if i > 0 {
        assert(s.skip(1).skip(i - 1) == s.skip(i));
        lemma_trim_start_skip(s.drop_first(), i - 1);
        assert(s.drop_first() == s.skip(1));
    } else {
        assert(s.skip(0) == s);
    }
}

proof fn lemma_trim_end_take(s: Seq<char>, i: int)
    requires
        0 <= i <= s.len(),
        forall|j: int| i <= j < s.len() ==> is_ws(#[trigger] s[j]),
    ensures
        trim_end_spec(s) == trim_end_spec(s.take(i)),
    decreases s.len() - i,
{
    if i < s.len() {
        lemma_trim_end_take(s.drop_last(), i);
        assert(s.drop_last().take(i) == s.take(i));
    } else {
        assert(s.take(i) == s);
    }
}

/// `str::trim`, on a character vector.
pub fn trim_chars(v: &Vec<char>) -> (r: Vec<char>)
    ensures
        r@ == trim_spec(v@),
{
    let n = v.len();
    let mut lo: usize = 0;
    while lo < n && is_whitespace(v[lo])
        invariant
            lo <= n == v.len(),
            forall|j: int| 0 <= j < lo ==> is_ws(#[trigger] v@[j]),
        decreases n - lo,
    {
        lo = lo + 1;
    }
    proof {
        lemma_trim_start_skip(v@, lo as int);
        if lo < n {
            assert(!is_ws(v@.skip(lo as int)[0]));
        }
    }
    let mut hi: usize = n;
    while hi > lo && is_whitespace(v[hi - 1])
        invariant
            lo <= hi <= n == v.len(),
            forall|j: int| hi <= j < n ==> is_ws(#[trigger] v@[j]),
        decreases hi - lo,
    {
        hi = hi - 1;
    }
    let ghost t = v@.skip(lo as int);
    proof {
        assert forall|j: int| hi - lo <= j < t.len() implies is_ws(#[trigger] t[j]) by {
            assert(t[j] == v@[j + lo]);
        }
        lemma_trim_end_take(t, hi - lo);
        if hi > lo {
            assert(t.take(hi - lo).last() == v@[hi - 1]);
        }
    }
    let mut r: Vec<char> = Vec::new();
    let mut k: usize = lo;
    while k < hi
        invariant
            lo <= k <= hi <= n == v.len(),
            r@ == v@.subrange(lo as int, k as int),
        decreases hi - k,
    {
        r.push(v[k]);
        assert(v@.subrange(lo as int, k + 1) == v@.subrange(lo as int, k as int).push(v@[k as int]));
        k = k + 1;
    }
    assert(r@ == t.take(hi - lo));
    r
}

/// `str::trim`, returning a `String`.
pub fn trim_str(s: &str) -> (r: String)
    ensures
        r@ == trim_spec(s@),
{
    let v = str_chars(s);
    let t = trim_chars(&v);
    chars_to_string(&t)
}

/// `str::split_whitespace`, on a character vector.
pub fn split_words(v: &Vec<char>) -> (r: Vec<Vec<char>>)
    ensures
        views(r@) == words(v@),
{
    let mut acc: Vec<Vec<char>> = Vec::new();
    let mut cur: Vec<char> = Vec::new();
    let n = v.len();
    for i in 0..n
        invariant
            n == v.len(),
            cur@.len() > 0 ==> words(v@.take(i as int)) == views(acc@).push(cur@),
            cur@.len() == 0 ==> words(v@.take(i as int)) == views(acc@),
            cur@.len() > 0 <==> (i > 0 && !is_ws(v@[i - 1])),
    {
        let c = v[i];
        let ghost pre = v@.take(i as int);
        assert(v@.take(i + 1).drop_last() == pre);
        assert(v@.take(i + 1).last() == c);
        if is_whitespace(c) {
            if cur.len() > 0 {
                let done = cur;
                acc.push(done);
                cur = Vec::new();
                assert(views(acc@) == views(acc@.drop_last()).push(done@));
            }
        } else {
            let ghost w = words(pre);
            let had = cur.len() > 0;
            if i > 0 {
                assert(v@.take(i + 1)[i - 1] == v@[i - 1]);
            }
            cur.push(c);
            if had {
                assert(words(v@.take(i + 1)) == w.update(w.len() - 1, w.last().push(c)));
                assert(w.update(w.len() - 1, w.last().push(c)) == views(acc@).push(cur@));
            } else {
                assert(words(v@.take(i + 1)) == w.push(seq![c]));
                assert(cur@ == seq![c]);
            }
        }
    }
    assert(v@.take(n as int) == v@);
    if cur.len() > 0 {
        let done = cur;
        acc.push(done);
        assert(views(acc@) == views(acc@.drop_last()).push(done@));
    }
    acc
}

/// `parts` joined with `sep`, as a `String`.
pub fn join_words(parts: &Vec<Vec<char>>, sep: &str) -> (s: String)
    ensures
        s@ == join(views(parts@), sep@),
{
    let mut s = String::new();
    let sepv = str_chars(sep);
    for i in 0..parts.len()
        invariant
            s@ == join(views(parts@.take(i as int)), sep@),
            sepv@ == sep@,
    {
        let ghost before = views(parts@.take(i as int));
        assert(views(parts@.take(i + 1)).drop_last() == before);
        if i > 0 {
            push_chars(&mut s, &sepv);
        }
        push_chars(&mut s, &parts[i]);
        assert(views(parts@.take(i + 1)).last() == parts@[i as int]@);
    }
    assert(parts@.take(parts.len() as int) == parts@);
    s
}

/// ASCII-lowercases every character.
pub fn lower_chars(v: &Vec<char>) -> (r: Vec<char>)
    ensures
        r@ == lower_seq(v@),
{
    let mut r: Vec<char> = Vec::new();
    for i in 0..v.len()
        invariant
            r@ == lower_seq(v@.take(i as int)),
    {
        r.push(to_lower(v[i]));
        assert(lower_seq(v@.take(i + 1)) == lower_seq(v@.take(i as int)).push(lower(v@[i as int])));
    }
    assert(v@.take(v.len() as int) == v@);
    r
}

/// Does `needle` occur at position `i` of `hay`?
pub fn occurs_at_exec(hay: &Vec<char>, needle: &Vec<char>, i: usize) -> (b: bool)
    ensures
        b == occurs_at(hay@, needle@, i as int),
{
    if i > hay.len() || needle.len() > hay.len() - i {
        return false;
    }
    let mut k: usize = 0;
    while k < needle.len()
        invariant
            i + needle.len() <= hay.len(),
            k <= needle.len(),
            forall|j: int| 0 <= j < k ==> hay@[i + j] == needle@[j],
        decreases needle.len() - k,
    {
        if hay[i + k] != needle[k] {
            assert(hay@.subrange(i as int, i + needle.len())[k as int] != needle@[k as int]);
            return false;
        }
        k = k + 1;
    }
    assert(hay@.subrange(i as int, i + needle.len()) == needle@);
    true
}

/// `str::contains`.
pub fn contains_chars(hay: &Vec<char>, needle: &Vec<char>) -> (b: bool)
    ensures
        b == contains_seq(hay@, needle@),
{
    if needle.len() > hay.len() {
        assert forall|i: int| !occurs_at(hay@, needle@, i) by {}
        return false;
    }
    let last = hay.len() - needle.len();
    let mut i: usize = 0;
    loop
        invariant
            last == hay.len() - needle.len(),
            i <= last,
            forall|j: int| 0 <= j < i ==> !occurs_at(hay@, needle@, j),
        decreases last - i,
    {
        if occurs_at_exec(hay, needle, i) {
            return true;
        }
        if i == last {
            assert forall|j: int| !occurs_at(hay@, needle@, j) by {
                if 0 <= j && j <= last {
                    assert(j < i || j == i);
                }
            }
            return false;
        }
        i = i + 1;
    }
}


/// The pieces of `s` between occurrences of `sep` (`str::split` with a
/// character pattern): one more piece than there are separators.
pub open spec fn split_on(s: Seq<char>, sep: char) -> Seq<Seq<char>>
    decreases s.len(),
{
    if s.len() == 0 {
        seq![Seq::<char>::empty()]
    } else {
        let w = split_on(s.drop_last(), sep);
        if s.last() == sep {
            w.push(Seq::<char>::empty())
        } else {
            w.update(w.len() - 1, w.last().push(s.last()))
        }
    }
}

/// `str::split` on a character, on a character vector.
pub fn split_on_char(v: &Vec<char>, sep: char) -> (r: Vec<Vec<char>>)
    ensures
        views(r@) == split_on(v@, sep),
{
    let mut acc: Vec<Vec<char>> = Vec::new();
    let mut cur: Vec<char> = Vec::new();
    for i in 0..v.len()
        invariant
            split_on(v@.take(i as int), sep) == views(acc@).push(cur@),
    {
        let c = v[i];
        assert(v@.take(i + 1).drop_last() == v@.take(i as int));
        assert(v@.take(i + 1).last() == c);
        if c == sep {
            let done = cur;
            acc.push(done);
            cur = Vec::new();
            assert(views(acc@) == views(acc@.drop_last()).push(done@));
        } else {
            cur.push(c);
        }
    }
    assert(v@.take(v.len() as int) == v@);
    let done = cur;
    acc.push(done);
    assert(views(acc@) == views(acc@.drop_last()).push(done@));
    acc
}

/// Code-point lexicographic order (the order of `String`'s `Ord`, since
/// UTF-8 preserves code-point order byte-wise).
pub open spec fn lex_lt(a: Seq<char>, b: Seq<char>) -> bool
    decreases a.len(),
{
    if a.len() == 0 {
        b.len() > 0
    } else if b.len() == 0 {
        false
    } else if a[0] != b[0] {
        (a[0] as u32) < (b[0] as u32)
    } else {
        lex_lt(a.drop_first(), b.drop_first())
    }
}

/// [`lex_lt`] is a strict total order: irreflexive, asymmetric,
/// transitive, and any two different strings are ordered.
pub proof fn lex_lt_is_strict_total(a: Seq<char>, b: Seq<char>, c: Seq<char>)
    ensures
        !lex_lt(a, a),
        lex_lt(a, b) ==> !lex_lt(b, a),
        lex_lt(a, b) && lex_lt(b, c) ==> lex_lt(a, c),
        a != b ==> lex_lt(a, b) || lex_lt(b, a),
    decreases a.len(),
{
    if a.len() > 0 && b.len() > 0 && c.len() > 0 {
        lex_lt_is_strict_total(a.drop_first(), b.drop_first(), c.drop_first());
    }
    if a.len() > 0 && b.len() > 0 {
        lex_lt_is_strict_total(a.drop_first(), b.drop_first(), b.drop_first());
        if a != b && a[0] == b[0] {
            assert(a.drop_first() != b.drop_first()) by {
                if a.drop_first() == b.drop_first() {
                    assert(a == seq![a[0]] + a.drop_first());
                    assert(b == seq![b[0]] + b.drop_first());
                }
            }
        }
    }
    if a.len() > 0 {
        lex_lt_is_strict_total(a.drop_first(), a.drop_first(), a.drop_first());
    }
    if a.len() == 0 && b.len() == 0 {
        assert(a =~= b);
    }
    if a.len() > 0 && b.len() > 0 && a[0] != b[0] {
        vstd::utf8::char_u32_cast(a[0], a[0] as u32);
        vstd::utf8::char_u32_cast(b[0], b[0] as u32);
    }
}

pub fn lex_lt_exec(a: &Vec<char>, b: &Vec<char>) -> (r: bool)
    ensures
        r == lex_lt(a@, b@),
{
    let mut i: usize = 0;
    assert(a@.skip(0) == a@);
    assert(b@.skip(0) == b@);
    while i < a.len() && i < b.len() && a[i] == b[i]
        invariant
            i <= a.len(),
            i <= b.len(),
            lex_lt(a@, b@) == lex_lt(a@.skip(i as int), b@.skip(i as int)),
        decreases a.len() - i,
    {
        proof {
            assert(a@.skip(i as int).drop_first() == a@.skip(i + 1));
            assert(b@.skip(i as int).drop_first() == b@.skip(i + 1));
            assert(a@.skip(i as int)[0] == a@[i as int]);
            assert(b@.skip(i as int)[0] == b@[i as int]);
        }
        i = i + 1;
    }
    if i == a.len() {
        i < b.len()
    } else if i == b.len() {
        false
    } else {
        assert(a@.skip(i as int)[0] == a@[i as int]);
        assert(b@.skip(i as int)[0] == b@[i as int]);
        (a[i] as u32) < (b[i] as u32)
    }
}

/// `x` inserted before the first element that it orders strictly before.
pub open spec fn insert_sorted(s: Seq<Seq<char>>, x: Seq<char>) -> Seq<Seq<char>>
    decreases s.len(),
{
    if s.len() == 0 {
        seq![x]
    } else if lex_lt(x, s[0]) {
        seq![x] + s
    } else {
        seq![s[0]] + insert_sorted(s.drop_first(), x)
    }
}

/// `s` in ascending [`lex_lt`] order (insertion sort).
pub open spec fn sort_spec(s: Seq<Seq<char>>) -> Seq<Seq<char>>
    decreases s.len(),
{
    if s.len() == 0 {
        s
    } else {
        insert_sorted(sort_spec(s.drop_last()), s.last())
    }
}

proof fn lemma_insert_at(s: Seq<Seq<char>>, x: Seq<char>, k: int)
    requires
        0 <= k <= s.len(),
        forall|j: int| 0 <= j < k ==> !lex_lt(x, #[trigger] s[j]),
        k < s.len() ==> lex_lt(x, s[k]),
    ensures
        insert_sorted(s, x) == s.take(k) + seq![x] + s.skip(k),
    decreases k,
{
    if k == 0 {
        assert(s.skip(0) == s);
        assert(s.take(0) + seq![x] + s == seq![x] + s);
    } else {
        let t = s.drop_first();
        assert forall|j: int| 0 <= j < k - 1 implies !lex_lt(x, #[trigger] t[j]) by {
            assert(t[j] == s[j + 1]);
        }
        if k - 1 < t.len() {
            assert(t[k - 1] == s[k]);
        }
        lemma_insert_at(t, x, k - 1);
        assert(s.take(k) + seq![x] + s.skip(k) == seq![s[0]] + (t.take(k - 1) + seq![x] + t.skip(k - 1)));
    }
}

/// `a` is at most `b` in [`lex_lt`] order.
pub open spec fn lex_le(a: Seq<char>, b: Seq<char>) -> bool {
    !lex_lt(b, a)
}

proof fn lemma_lex_le_total_ordering()
    ensures
        vstd::relations::total_ordering(|a: Seq<char>, b: Seq<char>| lex_le(a, b)),
{
    let leq = |a: Seq<char>, b: Seq<char>| lex_le(a, b);
    assert forall|x: Seq<char>| #[trigger] leq(x, x) by {
        lex_lt_is_strict_total(x, x, x);
    }
    assert forall|x: Seq<char>, y: Seq<char>| #[trigger] leq(x, y) && #[trigger] leq(y, x) implies x == y by {
        lex_lt_is_strict_total(x, y, y);
    }
    assert forall|x: Seq<char>, y: Seq<char>, z: Seq<char>| #[trigger] leq(x, y) && #[trigger] leq(y, z) implies leq(x, z) by {
        lex_lt_is_strict_total(z, y, x);
        lex_lt_is_strict_total(z, x, y);
        lex_lt_is_strict_total(x, y, z);
        lex_lt_is_strict_total(y, x, z);
        lex_lt_is_strict_total(x, z, y);
    }
    assert forall|x: Seq<char>, y: Seq<char>| #[trigger] leq(x, y) || #[trigger] leq(y, x) by {
        lex_lt_is_strict_total(x, y, y);
    }
}

proof fn lemma_insert_sorted_props(s: Seq<Seq<char>>, x: Seq<char>)
    requires
        vstd::relations::sorted_by(s, |a: Seq<char>, b: Seq<char>| lex_le(a, b)),
    ensures
        vstd::relations::sorted_by(insert_sorted(s, x), |a: Seq<char>, b: Seq<char>| lex_le(a, b)),
        insert_sorted(s, x).to_multiset() == s.to_multiset().insert(x),
    decreases s.len(),
{
    let leq = |a: Seq<char>, b: Seq<char>| lex_le(a, b);
    lemma_lex_le_total_ordering();
    broadcast use vstd::seq_lib::group_to_multiset_ensures;
    assert(seq![x] =~= Seq::<Seq<char>>::empty().push(x));
    assert(Seq::<Seq<char>>::empty().to_multiset() =~= vstd::multiset::Multiset::empty());
    if s.len() == 0 {
    } else if lex_lt(x, s[0]) {
        lex_lt_is_strict_total(x, s[0], s[0]);
        vstd::relations::lemma_new_first_element_still_sorted_by(x, s, leq);
        vstd::seq_lib::lemma_multiset_commutative(seq![x], s);
    } else {
        let rest = s.drop_first();
        assert(vstd::relations::sorted_by(rest, leq)) by {
            assert forall|i: int, j: int| 0 <= i < j < rest.len() implies #[trigger] leq(rest[i], rest[j]) by {
                assert(leq(s[i + 1], s[j + 1]));
            }
        }
        lemma_insert_sorted_props(rest, x);
        let r = insert_sorted(rest, x);
        if rest.len() > 0 {
            assert(leq(s[0], s[1]));
        }
        assert(leq(s[0], r[0])) by {
            lex_lt_is_strict_total(x, s[0], s[0]);
            if rest.len() > 0 && !lex_lt(x, rest[0]) {
                assert(r[0] == rest[0]);
            }
        }
        vstd::relations::lemma_new_first_element_still_sorted_by(s[0], r, leq);
        vstd::seq_lib::lemma_multiset_commutative(seq![s[0]], r);
        vstd::seq_lib::lemma_multiset_commutative(seq![s[0]], rest);
        assert(s =~= seq![s[0]] + rest);
        assert(seq![s[0]] =~= Seq::<Seq<char>>::empty().push(s[0]));
    }
}

proof fn lemma_sort_props(s: Seq<Seq<char>>)
    ensures
        vstd::relations::sorted_by(sort_spec(s), |a: Seq<char>, b: Seq<char>| lex_le(a, b)),
        sort_spec(s).to_multiset() == s.to_multiset(),
    decreases s.len(),
{
    broadcast use vstd::seq_lib::group_to_multiset_ensures;
    if s.len() > 0 {
        lemma_sort_props(s.drop_last());
        lemma_insert_sorted_props(sort_spec(s.drop_last()), s.last());
        assert(s =~= s.drop_last().push(s.last()));
    }
}

/// Sorting does not depend on the order of its input: two lists with the
/// same elements (counted with multiplicity) sort to the same list.
pub proof fn sort_ignores_input_order(s: Seq<Seq<char>>, t: Seq<Seq<char>>)
    requires
        s.to_multiset() == t.to_multiset(),
    ensures
        sort_spec(s) == sort_spec(t),
{
    lemma_sort_props(s);
    lemma_sort_props(t);
    lemma_lex_le_total_ordering();
    vstd::seq_lib::lemma_sorted_unique(sort_spec(s), sort_spec(t), |a: Seq<char>, b: Seq<char>| lex_le(a, b));
}

/// A copy of `v`.
pub fn copy_chars(v: &Vec<char>) -> (r: Vec<char>)
    ensures
        r@ == v@,
{
    let mut r: Vec<char> = Vec::new();
    for i in 0..v.len()
        invariant
            r@ == v@.take(i as int),
    {
        r.push(v[i]);
        assert(v@.take(i + 1) == v@.take(i as int).push(v@[i as int]));
    }
    assert(v@.take(v.len() as int) == v@);
    r
}

/// `v` sorted ascending by code-point lexicographic order.
pub fn sort_words(v: &Vec<Vec<char>>) -> (r: Vec<Vec<char>>)
    ensures
        views(r@) == sort_spec(views(v@)),
{
    let mut out: Vec<Vec<char>> = Vec::new();
    for i in 0..v.len()
        invariant
            views(out@) == sort_spec(views(v@).take(i as int)),
    {
        let x = copy_chars(&v[i]);
        let mut k: usize = 0;
        while k < out.len() && !lex_lt_exec(&x, &out[k])
            invariant
                k <= out.len(),
                forall|j: int| 0 <= j < k ==> !lex_lt(x@, #[trigger] views(out@)[j]),
            decreases out.len() - k,
        {
            k = k + 1;
        }
        let ghost before = views(out@);
        proof {
            if k < out.len() {
                assert(before[k as int] == out@[k as int]@);
            }
            lemma_insert_at(before, x@, k as int);
            assert(views(v@).take(i + 1).drop_last() == views(v@).take(i as int));
            assert(views(v@).take(i + 1).last() == x@);
        }
        out.insert(k, x);
        assert(views(out@) == before.take(k as int) + seq![x@] + before.skip(k as int));
    }
    assert(views(v@).take(v.len() as int) == views(v@));
    out
}


/// What `str::to_lowercase` returns for `s` (full Unicode lowercase
/// mapping, which can change the length).
pub uninterp spec fn unicode_lower(s: Seq<char>) -> Seq<char>;

/// Every character of `s` is ASCII.
pub open spec fn all_ascii(s: Seq<char>) -> bool {
    forall|i: int| 0 <= i < s.len() ==> (#[trigger] s[i] as u32) < 0x80
}

/// `str::to_lowercase`. On all-ASCII text it lowers the ASCII letters and
/// keeps everything else; beyond ASCII the result is only named.
#[verifier::external_body]
pub(crate) fn to_lowercase(s: &str) -> (r: String)
    ensures
        r@ == unicode_lower(s@),
        all_ascii(s@) ==> r@ == lower_seq(s@),
{
    s.to_lowercase()
}

/// `s` without every trailing repetition of `suffix`
/// (`str::trim_end_matches` with a string pattern).
pub open spec fn trim_end_matches_spec(s: Seq<char>, suffix: Seq<char>) -> Seq<char>
    decreases s.len(),
{
    if suffix.len() > 0 && s.len() >= suffix.len() && s.subrange(s.len() - suffix.len(), s.len() as int) == suffix {
        trim_end_matches_spec(s.take(s.len() - suffix.len()), suffix)
    } else {
        s
    }
}

/// Does `s` end with `suffix`?
pub open spec fn ends_with_spec(s: Seq<char>, suffix: Seq<char>) -> bool {
    s.len() >= suffix.len() && s.subrange(s.len() - suffix.len(), s.len() as int) == suffix
}

pub fn ends_with_chars(s: &Vec<char>, suffix: &Vec<char>) -> (b: bool)
    ensures
        b == ends_with_spec(s@, suffix@),
{
    if s.len() < suffix.len() {
        return false;
    }
    let start = s.len() - suffix.len();
    let r = occurs_at_exec(s, suffix, start);
    assert(r == (s@.subrange(start as int, start + suffix@.len()) == suffix@));
    r
}

/// `str::trim_end_matches` with a string pattern.
pub fn trim_end_matches_chars(s: &Vec<char>, suffix: &Vec<char>) -> (r: Vec<char>)
    ensures
        r@ == trim_end_matches_spec(s@, suffix@),
{
    let mut end = s.len();
    if suffix.len() == 0 {
        return copy_chars(s);
    }
    assert(s@.take(end as int) == s@);
    while end >= suffix.len() && occurs_at_exec(s, suffix, end - suffix.len())
        invariant
            end <= s.len(),
            suffix.len() > 0,
            trim_end_matches_spec(s@, suffix@) == trim_end_matches_spec(s@.take(end as int), suffix@),
        decreases end,
    {
        let ghost t = s@.take(end as int);
        assert(t.subrange(t.len() - suffix.len(), t.len() as int) == s@.subrange(end - suffix.len(), end as int));
        assert(t.take(t.len() - suffix.len()) == s@.take(end - suffix.len()));
        end = end - suffix.len();
    }
    let ghost t = s@.take(end as int);
    if end >= suffix.len() {
        assert(t.subrange(t.len() - suffix.len(), t.len() as int) == s@.subrange(end - suffix.len(), end as int));
    }
    let mut r: Vec<char> = Vec::new();
    let mut i: usize = 0;
    while i < end
        invariant
            end <= s.len(),
            i <= end,
            r@ == s@.take(i as int),
        decreases end - i,
    {
        r.push(s[i]);
        assert(s@.take(i + 1) == s@.take(i as int).push(s@[i as int]));
        i = i + 1;
    }
    r
}


/// Trimming keeps a contiguous slice of the input.
pub proof fn lemma_trim_is_slice(s: Seq<char>)
    ensures
        exists|lo: int, hi: int| 0 <= lo <= hi <= s.len() && trim_spec(s) == s.subrange(lo, hi),
{
    lemma_trim_start_is_suffix(s);
    let lo = choose|lo: int| 0 <= lo <= s.len() && trim_start_spec(s) == s.skip(lo);
    let t = trim_start_spec(s);
    lemma_trim_end_is_prefix(t);
    let hi = choose|hi: int| 0 <= hi <= t.len() && trim_end_spec(t) == t.take(hi);
    assert(t.take(hi) == s.subrange(lo, lo + hi));
}

proof fn lemma_trim_start_head(s: Seq<char>)
    ensures
        trim_start_spec(s).len() > 0 ==> !is_ws(trim_start_spec(s)[0]),
    decreases s.len(),
{
    if s.len() > 0 && is_ws(s[0]) {
        lemma_trim_start_head(s.drop_first());
    }
}

proof fn lemma_trim_end_last(s: Seq<char>)
    ensures
        trim_end_spec(s).len() > 0 ==> !is_ws(trim_end_spec(s).last()),
    decreases s.len(),
{
    if s.len() > 0 && is_ws(s.last()) {
        lemma_trim_end_last(s.drop_last());
    }
}

/// Trimming twice is trimming once: a trimmed string neither starts nor
/// ends with whitespace.
pub proof fn trim_is_idempotent(s: Seq<char>)
    ensures
        trim_spec(trim_spec(s)) == trim_spec(s),
        trim_spec(s).len() > 0 ==> !is_ws(trim_spec(s)[0]) && !is_ws(trim_spec(s).last()),
{
    let u = trim_start_spec(s);
    lemma_trim_start_head(s);
    lemma_trim_end_is_prefix(u);
    lemma_trim_end_last(u);
    let v = trim_end_spec(u);
    if v.len() > 0 {
        let hi = choose|hi: int| 0 <= hi <= u.len() && trim_end_spec(u) == u.take(hi);
        assert(v[0] == u[0]);
        assert(trim_start_spec(v) == v);
        assert(trim_end_spec(v) == v);
    } else {
        assert(trim_start_spec(v) == v);
        assert(trim_end_spec(v) == v);
    }
}

proof fn lemma_trim_start_is_suffix(s: Seq<char>)
    ensures
        exists|lo: int| 0 <= lo <= s.len() && trim_start_spec(s) == s.skip(lo),
    decreases s.len(),
{
    if s.len() > 0 && is_ws(s[0]) {
        lemma_trim_start_is_suffix(s.drop_first());
        let lo = choose|lo: int| 0 <= lo <= s.drop_first().len() && trim_start_spec(s.drop_first()) == s.drop_first().skip(lo);
        assert(s.drop_first().skip(lo) == s.skip(lo + 1));
    } else {
        assert(s.skip(0) == s);
    }
}

proof fn lemma_trim_end_is_prefix(s: Seq<char>)
    ensures
        exists|hi: int| 0 <= hi <= s.len() && trim_end_spec(s) == s.take(hi),
    decreases s.len(),
{
    if s.len() > 0 && is_ws(s.last()) {
        lemma_trim_end_is_prefix(s.drop_last());
        let hi = choose|hi: int| 0 <= hi <= s.drop_last().len() && trim_end_spec(s.drop_last()) == s.drop_last().take(hi);
        assert(s.drop_last().take(hi) == s.take(hi));
    } else {
        assert(s.take(s.len() as int) == s);
    }
}

} // verus!
