//! Optional capture-to-disk of dictations for benchmarking: whether it is
//! switched on, and the file name each capture gets. Writing the files is
//! left to the caller.
use vstd::prelude::*;
use crate::settings::eq_lit;
use crate::text::{chars_to_string, is_ascii_alnum, push_char, str_chars};

verus! {

/// Is the capture flag's value one that switches captures on?
pub open spec fn flag_on_spec(value: Option<Seq<char>>) -> bool {
    match value {
        Some(v) => v == "1"@ || v == "true"@ || v == "yes"@,
        None => false,
    }
}

/// Captures are on when the flag is set to `1`, `true` or `yes`.
pub fn enabled(flag: Option<&str>) -> (b: bool)
    ensures
        b == flag_on_spec(match flag {
            Some(s) => Some(s@),
            None => None,
        }),
{
    match flag {
        Some(s) => {
            let v = str_chars(s);
            eq_lit(&v, "1") || eq_lit(&v, "true") || eq_lit(&v, "yes")
        },
        None => false,
    }
}

/// `s` with every `:` replaced by `-`.
pub open spec fn colons_to_dashes(s: Seq<char>) -> Seq<char> {
    s.map_values(|c: char| if c == ':' { '-' } else { c })
}

/// The part of `s` after its last `.` (all of `s` when it has none).
pub open spec fn after_last_dot(s: Seq<char>) -> Seq<char>
    decreases s.len(),
{
    if s.len() == 0 {
        s
    } else if s.last() == '.' {
        Seq::empty()
    } else {
        after_last_dot(s.drop_last()).push(s.last())
    }
}

/// `s` with everything but ASCII letters and digits removed.
pub open spec fn ascii_alnum_only(s: Seq<char>) -> Seq<char>
    decreases s.len(),
{
    if s.len() == 0 {
        s
    } else if is_ascii_alnum(s.last()) {
        ascii_alnum_only(s.drop_last()).push(s.last())
    } else {
        ascii_alnum_only(s.drop_last())
    }
}

/// `<timestamp with : as ->-<app leaf or na, ASCII alphanumerics only>`:
/// listings sort by time and show the focused app.
pub open spec fn stem_spec(captured_at: Seq<char>, app_exe: Option<Seq<char>>) -> Seq<char> {
    let leaf = match app_exe {
        Some(a) => after_last_dot(a),
        None => "na"@,
    };
    colons_to_dashes(captured_at) + "-"@ + ascii_alnum_only(leaf)
}

fn dashes_for_colons(s: &Vec<char>) -> (r: Vec<char>)
    ensures
        r@ == colons_to_dashes(s@),
{
    let mut r: Vec<char> = Vec::new();
    for i in 0..s.len()
        invariant
            r@ == colons_to_dashes(s@.take(i as int)),
    {
        let c = s[i];
        r.push(if c == ':' { '-' } else { c });
        assert(colons_to_dashes(s@.take(i + 1)) == colons_to_dashes(s@.take(i as int)).push(
            if c == ':' { '-' } else { c },
        ));
    }
    assert(s@.take(s.len() as int) == s@);
    r
}

fn last_dot_segment(s: &Vec<char>) -> (r: Vec<char>)
    ensures
        r@ == after_last_dot(s@),
{
    let mut r: Vec<char> = Vec::new();
    for i in 0..s.len()
        invariant
            r@ == after_last_dot(s@.take(i as int)),
    {
        assert(s@.take(i + 1).drop_last() == s@.take(i as int));
        if s[i] == '.' {
            r = Vec::new();
        } else {
            r.push(s[i]);
        }
    }
    assert(s@.take(s.len() as int) == s@);
    r
}

fn push_ascii_alnum(out: &mut String, s: &Vec<char>)
    ensures
        final(out)@ == old(out)@ + ascii_alnum_only(s@),
{
    for i in 0..s.len()
        invariant
            out@ == old(out)@ + ascii_alnum_only(s@.take(i as int)),
    {
        assert(s@.take(i + 1).drop_last() == s@.take(i as int));
        let c = s[i];
        if ('a' <= c && c <= 'z') || ('A' <= c && c <= 'Z') || ('0' <= c && c <= '9') {
            push_char(out, c);
        }
    }
    assert(s@.take(s.len() as int) == s@);
}

/// File-name stem for one capture.
pub fn filename_stem(captured_at: &str, app_exe: Option<&str>) -> (r: String)
    ensures
        r@ == stem_spec(captured_at@, match app_exe {
            Some(a) => Some(a@),
            None => None,
        }),
{
    let ts = str_chars(captured_at);
    let safe = dashes_for_colons(&ts);
    let leaf = match app_exe {
        Some(a) => {
            let v = str_chars(a);
            last_dot_segment(&v)
        },
        None => str_chars("na"),
    };
    let mut out = chars_to_string(&safe);
    push_char(&mut out, '-');
    proof {
        reveal_strlit("-");
    }
    push_ascii_alnum(&mut out, &leaf);
    out
}

proof fn lemma_ascii_alnum_only(s: Seq<char>)
    ensures
        forall|i: int| 0 <= i < ascii_alnum_only(s).len() ==> is_ascii_alnum(#[trigger] ascii_alnum_only(s)[i]),
    decreases s.len(),
{
    if s.len() > 0 {
        lemma_ascii_alnum_only(s.drop_last());
        let p = ascii_alnum_only(s.drop_last());
        if is_ascii_alnum(s.last()) {
            assert forall|i: int| 0 <= i < p.push(s.last()).len() implies is_ascii_alnum(#[trigger] p.push(s.last())[i]) by {
                if i < p.len() {
                    assert(p.push(s.last())[i] == p[i]);
                }
            }
        }
    }
}

/// A capture's file-name stem holds no `:` (which some file systems
/// refuse), and everything after the timestamp and its `-` is ASCII
/// letters and digits, so the app part can carry no path separator.
pub proof fn filename_stem_is_safe(captured_at: Seq<char>, app_exe: Option<Seq<char>>)
    ensures
        forall|i: int| 0 <= i < stem_spec(captured_at, app_exe).len() ==> #[trigger] stem_spec(captured_at, app_exe)[i] != ':',
        forall|i: int| captured_at.len() < i < stem_spec(captured_at, app_exe).len() ==> is_ascii_alnum(
            #[trigger] stem_spec(captured_at, app_exe)[i],
        ),
{
    let leaf = match app_exe {
        Some(a) => after_last_dot(a),
        None => "na"@,
    };
    let c = colons_to_dashes(captured_at);
    let tail = ascii_alnum_only(leaf);
    lemma_ascii_alnum_only(leaf);
    let st = stem_spec(captured_at, app_exe);
    assert(st == c + "-"@ + tail);
    reveal_strlit("-");
    assert forall|i: int| 0 <= i < st.len() implies #[trigger] st[i] != ':' by {
        if i < c.len() {
            assert(st[i] == c[i]);
        } else if i == c.len() {
            assert(st[i] == '-');
        } else {
            assert(st[i] == tail[i - c.len() - 1]);
        }
    }
    assert forall|i: int| captured_at.len() < i < st.len() implies is_ascii_alnum(#[trigger] st[i]) by {
        assert(st[i] == tail[i - c.len() - 1]);
    }
}

} // verus!
