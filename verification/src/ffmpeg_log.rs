//! Reading FFmpeg's stderr: hiding stream keys and spotting failed tee
//! destinations.

use vstd::prelude::*;

use crate::text::is_space_char;
use crate::text::{
    chars_of, contains_seq, digit_value, digits_value, find_from, is_digit, is_space, occurs_at, parse_u64, parse_unsigned, push_char,
    push_str, str_eq, string_of,
};

verus! {

/// Whether an RTMP(S) scheme starts at the front of `s`; 8 for `rtmps://`,
/// 7 for `rtmp://`, 0 otherwise.
pub open spec fn scheme_len(s: Seq<char>) -> nat {
    if s.len() >= 8 && s[0] == 'r' && s[1] == 't' && s[2] == 'm' && s[3] == 'p' && s[4] == 's'
        && s[5] == ':' && s[6] == '/' && s[7] == '/' {
        8
    } else if s.len() >= 7 && s[0] == 'r' && s[1] == 't' && s[2] == 'm' && s[3] == 'p'
        && s[4] == ':' && s[5] == '/' && s[6] == '/' {
        7
    } else {
        0
    }
}

/// The characters that end a URL in a log line.
pub open spec fn is_url_end(c: char) -> bool {
    is_space(c) || c == '\'' || c == '"' || c == ')' || c == ']' || c == '}'
}

/// The length of the URL at the front of `s`.
pub open spec fn url_len(s: Seq<char>) -> nat
    decreases s.len(),
{
    if s.len() == 0 || is_url_end(s[0]) { 0 } else { 1 + url_len(s.drop_first()) }
}

/// The index of the last `/` in `u`, or -1.
pub open spec fn last_slash(u: Seq<char>) -> int
    decreases u.len(),
{
    if u.len() == 0 { -1 } else if u.last() == '/' { u.len() - 1 } else { last_slash(u.drop_last()) }
}

/// A URL with its last path segment replaced by `<redacted>`, when there is
/// a non-empty segment after the scheme.
pub open spec fn redact_url(u: Seq<char>, scheme: nat) -> Seq<char> {
    let ls = last_slash(u);
    if ls >= scheme && ls + 1 < u.len() {
        u.subrange(0, ls + 1) + "<redacted>"@
    } else {
        u
    }
}

/// A log line with the last path segment (the stream key) of every RTMP(S)
/// URL replaced by `<redacted>`.
pub open spec fn redact_spec(s: Seq<char>) -> Seq<char>
    decreases s.len(),
{
    if s.len() == 0 {
        s
    } else if scheme_len(s) > 0 {
        let e = url_len(s);
        proof {
            lemma_url_len_bound(s);
            assert(!is_url_end(s[0]));
            assert(url_len(s) == 1 + url_len(s.drop_first()));
        }
        redact_url(s.subrange(0, e as int), scheme_len(s)) + redact_spec(s.subrange(e as int, s.len() as int))
    } else {
        seq![s[0]] + redact_spec(s.drop_first())
    }
}

pub proof fn lemma_url_len_bound(s: Seq<char>)
    ensures
        url_len(s) <= s.len(),
        forall|k: int| 0 <= k < url_len(s) ==> !is_url_end(#[trigger] s[k]),
        url_len(s) < s.len() ==> is_url_end(s[url_len(s) as int]),
    decreases s.len(),
{
    if s.len() > 0 && !is_url_end(s[0]) {
        lemma_url_len_bound(s.drop_first());
        assert forall|k: int| 0 <= k < url_len(s) implies !is_url_end(#[trigger] s[k]) by {
            if k > 0 {
                assert(s[k] == s.drop_first()[k - 1]);
            }
        }
    }
}

proof fn lemma_url_len_scan(s: Seq<char>, k: int)
    requires
        0 <= k <= s.len(),
        forall|j: int| 0 <= j < k ==> !is_url_end(#[trigger] s[j]),
        k == s.len() || is_url_end(s[k]),
    ensures
        url_len(s) == k,
    decreases s.len(),
{
    if k > 0 {
        assert forall|j: int| 0 <= j < k - 1 implies !is_url_end(#[trigger] s.drop_first()[j]) by {
            assert(s.drop_first()[j] == s[j + 1]);
        }
        if k - 1 < s.drop_first().len() {
            assert(s.drop_first()[k - 1] == s[k]);
        }
        lemma_url_len_scan(s.drop_first(), k - 1);
    }
}

proof fn lemma_last_slash_scan(u: Seq<char>, k: int)
    requires
        -1 <= k < u.len(),
        k >= 0 ==> u[k] == '/',
        forall|j: int| k < j < u.len() ==> u[j] != '/',
    ensures
        last_slash(u) == k,
    decreases u.len(),
{
    if u.len() > 0 && u.last() != '/' {
        assert forall|j: int| k < j < u.drop_last().len() implies u.drop_last()[j] != '/' by {}
        lemma_last_slash_scan(u.drop_last(), k);
    }
}

/// Where `last_slash` points: -1, or a `/` with none after it.
proof fn lemma_last_slash_props(u: Seq<char>)
    ensures
        -1 <= last_slash(u) < u.len(),
        last_slash(u) >= 0 ==> u[last_slash(u)] == '/',
        forall|j: int| last_slash(u) < j < u.len() ==> u[j] != '/',
    decreases u.len(),
{
    if u.len() > 0 && u.last() != '/' {
        lemma_last_slash_props(u.drop_last());
        assert forall|j: int| last_slash(u) < j < u.len() implies u[j] != '/' by {
            if j < u.len() - 1 {
                assert(u[j] == u.drop_last()[j]);
            }
        }
    }
}

/// How many of the first eight characters a line of `n` has.
pub open spec fn head_len(n: nat) -> nat {
    if n < 8 { n } else { 8 }
}

/// Two lines that agree on their first eight characters (and on which of
/// those they have) start with the same scheme.
proof fn lemma_scheme_len_prefix(a: Seq<char>, b: Seq<char>)
    requires
        head_len(a.len()) == head_len(b.len()),
        forall|k: int| 0 <= k < 8 && k < a.len() ==> #[trigger] a[k] == b[k],
    ensures
        scheme_len(a) == scheme_len(b),
{
    if a.len() >= 7 {
        assert(a[0] == b[0] && a[1] == b[1] && a[2] == b[2] && a[3] == b[3]);
        assert(a[4] == b[4] && a[5] == b[5] && a[6] == b[6]);
    }
    if a.len() >= 8 {
        assert(a[7] == b[7]);
    }
}

/// Redaction keeps the first eight characters of a line, and which of
/// them it has.
proof fn lemma_redact_prefix(x: Seq<char>)
    ensures
        head_len(x.len()) == head_len(redact_spec(x).len()),
        forall|k: int| 0 <= k < 8 && k < x.len() ==> #[trigger] redact_spec(x)[k] == x[k],
    decreases x.len(),
{
    if x.len() > 0 {
        if scheme_len(x) > 0 {
            lemma_url_len_bound(x);
            assert(!is_url_end(x[0]));
            assert(url_len(x) == 1 + url_len(x.drop_first()));
            let e = url_len(x);
            let u = x.subrange(0, e as int);
            let rest = x.subrange(e as int, x.len() as int);
            lemma_redact_prefix(rest);
            let sl = scheme_len(x);
            let r = redact_spec(x);
            let ls = last_slash(u);
            lemma_last_slash_props(u);
            if ls >= sl && ls + 1 < u.len() {
                reveal_strlit("<redacted>");
                let rr = u.subrange(0, ls + 1) + "<redacted>"@;
                assert(r == rr + redact_spec(rest));
                assert forall|k: int| 0 <= k < 8 && k < x.len() implies r[k] == x[k] by {
                    assert(r[k] == rr[k]);
                }
            } else {
                assert(r == u + redact_spec(rest));
                assert forall|k: int| 0 <= k < 8 && k < x.len() implies r[k] == x[k] by {
                    if k >= e {
                        assert(r[k] == redact_spec(rest)[k - e]);
                        assert(x[k] == rest[k - e]);
                    }
                }
            }
        } else {
            let d = x.drop_first();
            lemma_redact_prefix(d);
            let r = redact_spec(x);
            assert(r == seq![x[0]] + redact_spec(d));
            assert forall|k: int| 0 <= k < 8 && k < x.len() implies r[k] == x[k] by {
                if k >= 1 {
                    assert(r[k] == redact_spec(d)[k - 1]);
                    assert(x[k] == d[k - 1]);
                }
            }
        }
    }
}

/// Redacting a line twice changes nothing more than redacting it once.
pub proof fn lemma_redact_idempotent(s: Seq<char>)
    ensures
        redact_spec(redact_spec(s)) == redact_spec(s),
    decreases s.len(),
{
    let r = redact_spec(s);
    if s.len() == 0 {
        return;
    }
    lemma_redact_prefix(s);
    lemma_scheme_len_prefix(s, r);
    assert(0 < r.len());
    if scheme_len(s) > 0 {
        lemma_url_len_bound(s);
        assert(!is_url_end(s[0]));
        assert(url_len(s) == 1 + url_len(s.drop_first()));
        let sl = scheme_len(s);
        let e = url_len(s);
        let u = s.subrange(0, e as int);
        let rest = s.subrange(e as int, s.len() as int);
        let t = redact_spec(rest);
        lemma_redact_idempotent(rest);
        lemma_redact_prefix(rest);
        let ls = last_slash(u);
        lemma_last_slash_props(u);
        let big_r = redact_url(u, sl);
        assert(r == big_r + t);
        // Every character of the redacted URL belongs to a URL, and what
        // follows it ends one.
        reveal_strlit("<redacted>");
        assert forall|j: int| 0 <= j < big_r.len() implies !is_url_end(#[trigger] r[j]) by {
            assert(r[j] == big_r[j]);
            if ls >= sl && ls + 1 < u.len() {
                if j <= ls {
                    assert(big_r[j] == u[j]);
                    assert(u[j] == s[j]);
                }
            } else {
                assert(big_r[j] == s[j]);
            }
        }
        if big_r.len() < r.len() {
            assert(rest.len() > 0);
            assert(is_url_end(s[e as int]));
            assert(r[big_r.len() as int] == t[0]);
            assert(t[0] == rest[0]);
        }
        lemma_url_len_scan(r, big_r.len() as int);
        assert(r.subrange(0, big_r.len() as int) =~= big_r);
        assert(r.subrange(big_r.len() as int, r.len() as int) =~= t);
        // The redacted URL is redacted already.
        if ls >= sl && ls + 1 < u.len() {
            assert forall|j: int| ls < j < big_r.len() implies big_r[j] != '/' by {}
            lemma_last_slash_scan(big_r, ls);
            assert(big_r.subrange(0, ls + 1) =~= u.subrange(0, ls + 1));
        }
        assert(redact_url(big_r, sl) == big_r);
    } else {
        let d = s.drop_first();
        lemma_redact_idempotent(d);
        assert(r == seq![s[0]] + redact_spec(d));
        assert(r.drop_first() =~= redact_spec(d));
        assert(r[0] == s[0]);
        assert(seq![r[0]] + redact_spec(r.drop_first()) =~= r);
    }
}

proof fn lemma_scheme_occurs(s: Seq<char>)
    ensures
        scheme_len(s) == 8 ==> occurs_at(s, "rtmps://"@, 0),
        scheme_len(s) == 7 ==> occurs_at(s, "rtmp://"@, 0),
{
    reveal_strlit("rtmps://");
    reveal_strlit("rtmp://");
    if scheme_len(s) == 8 {
        assert(s.subrange(0, 8) =~= "rtmps://"@);
    } else if scheme_len(s) == 7 {
        assert(s.subrange(0, 7) =~= "rtmp://"@);
    }
}

/// A line with no `rtmp://` or `rtmps://` in it is left as it is.
pub proof fn lemma_redact_without_scheme(s: Seq<char>)
    requires
        !contains_seq(s, "rtmp://"@),
        !contains_seq(s, "rtmps://"@),
    ensures
        redact_spec(s) == s,
    decreases s.len(),
{
    if s.len() > 0 {
        lemma_scheme_occurs(s);
        reveal_strlit("rtmps://");
        reveal_strlit("rtmp://");
        let d = s.drop_first();
        assert forall|i: int| !occurs_at(d, "rtmp://"@, i) by {
            if occurs_at(d, "rtmp://"@, i) {
                assert(s.subrange(i + 1, i + 8) =~= d.subrange(i, i + 7));
                assert(occurs_at(s, "rtmp://"@, i + 1));
            }
        }
        assert forall|i: int| !occurs_at(d, "rtmps://"@, i) by {
            if occurs_at(d, "rtmps://"@, i) {
                assert(s.subrange(i + 1, i + 9) =~= d.subrange(i, i + 8));
                assert(occurs_at(s, "rtmps://"@, i + 1));
            }
        }
        lemma_redact_without_scheme(d);
        assert(seq![s[0]] + d =~= s);
    }
}

fn is_url_end_char(c: char) -> (b: bool)
    ensures
        b == is_url_end(c),
{
    is_space_char(c) || c == '\'' || c == '"' || c == ')' || c == ']' || c == '}'
}

fn scheme_len_at(v: &Vec<char>, i: usize) -> (n: usize)
    requires
        i <= v@.len(),
    ensures
        n == scheme_len(v@.subrange(i as int, v@.len() as int)),
{
    let ghost s = v@.subrange(i as int, v@.len() as int);
    let rest = v.len() - i;
    if rest >= 8 && v[i] == 'r' && v[i + 1] == 't' && v[i + 2] == 'm' && v[i + 3] == 'p'
        && v[i + 4] == 's' && v[i + 5] == ':' && v[i + 6] == '/' && v[i + 7] == '/' {
        8
    } else if rest >= 7 && v[i] == 'r' && v[i + 1] == 't' && v[i + 2] == 'm' && v[i + 3] == 'p'
        && v[i + 4] == ':' && v[i + 5] == '/' && v[i + 6] == '/' {
        7
    } else {
        0
    }
}

/// Hides the stream key (last path segment) of every RTMP(S) URL in a log
/// line.
pub fn redact_rtmp_secrets(input: &str) -> (out: String)
    ensures
        out@ == redact_spec(input@),
{
    let v = chars_of(input);
    let n = v.len();
    let mut out = String::new();
    let mut i: usize = 0;
    assert(v@.subrange(0, n as int) =~= v@);
    while i < n
        invariant
            n == v@.len(),
            v@ == input@,
            i <= n,
            redact_spec(v@) == out@ + redact_spec(v@.subrange(i as int, n as int)),
        decreases n - i,
    {
        let ghost s = v@.subrange(i as int, n as int);
        let sl = scheme_len_at(&v, i);
        if sl > 0 {
            let mut e = i + sl;
            while e < n && !is_url_end_char(v[e])
                invariant
                    i + sl <= e <= n,
                    n == v@.len(),
                    forall|j: int| i <= j < e ==> !is_url_end(#[trigger] v@[j]),
                decreases n - e,
            {
                e = e + 1;
            }
            proof {
                assert forall|j: int| i <= j < i + sl implies !is_url_end(#[trigger] v@[j]) by {
                    assert(v@[j] == s[j - i]);
                }
                assert forall|j: int| 0 <= j < e - i implies !is_url_end(#[trigger] s[j]) by {
                    assert(s[j] == v@[i + j]);
                }
                if e < n {
                    assert(s[e - i] == v@[e as int]);
                }
                lemma_url_len_scan(s, e - i);
            }
            let mut ls: usize = e;
            let mut k: usize = e;
            while k > i
                invariant
                    i <= k <= e,
                    e <= n,
                    n == v@.len(),
                    ls == e || (k <= ls < e && v@[ls as int] == '/'),
                    ls == e ==> forall|j: int| k <= j < e ==> v@[j] != '/',
                    ls < e ==> forall|j: int| ls < j < e ==> v@[j] != '/',
                decreases k - i,
            {
                if ls == e && v[k - 1] == '/' {
                    ls = k - 1;
                }
                k = k - 1;
            }
            let ghost u = v@.subrange(i as int, e as int);
            proof {
                if ls < e {
                    assert forall|j: int| (ls - i) < j < u.len() implies u[j] != '/' by {
                        assert(u[j] == v@[i + j]);
                    }
                    lemma_last_slash_scan(u, ls - i);
                } else {
                    assert forall|j: int| -1 < j < u.len() implies u[j] != '/' by {
                        assert(u[j] == v@[i + j]);
                    }
                    lemma_last_slash_scan(u, -1);
                }
            }
            let ghost base = out@;
            if ls < e && ls >= i + sl && ls + 1 < e {
                let mut j = i;
                while j <= ls
                    invariant
                        i <= j <= ls + 1,
                        ls < e <= n,
                        n == v@.len(),
                        out@ == base + v@.subrange(i as int, j as int),
                    decreases ls + 1 - j,
                {
                    push_char(&mut out, v[j]);
                    proof {
                        assert(v@.subrange(i as int, j + 1) =~= v@.subrange(i as int, j as int).push(v@[j as int]));
                    }
                    j = j + 1;
                }
                push_str(&mut out, "<redacted>");
                proof {
                    assert(u.subrange(0, ls - i + 1) =~= v@.subrange(i as int, ls + 1));
                    assert(out@ =~= base + redact_url(u, sl as nat));
                }
            } else {
                let mut j = i;
                while j < e
                    invariant
                        i <= j <= e,
                        e <= n,
                        n == v@.len(),
                        out@ == base + v@.subrange(i as int, j as int),
                    decreases e - j,
                {
                    push_char(&mut out, v[j]);
                    proof {
                        assert(v@.subrange(i as int, j + 1) =~= v@.subrange(i as int, j as int).push(v@[j as int]));
                    }
                    j = j + 1;
                }
                proof {
                    assert(out@ =~= base + redact_url(u, sl as nat));
                }
            }
            proof {
                assert(s.subrange(0, e - i) =~= u);
                assert(s.subrange(e - i, s.len() as int) =~= v@.subrange(e as int, n as int));
                assert(redact_spec(s) == redact_url(u, sl as nat) + redact_spec(v@.subrange(e as int, n as int)));
            }
            i = e;
        } else {
            push_char(&mut out, v[i]);
            proof {
                assert(s.drop_first() =~= v@.subrange(i + 1, n as int));
            }
            i = i + 1;
        }
    }
    out
}

/// The length of the run of ASCII digits at the front of `s`.
pub open spec fn digit_run(s: Seq<char>) -> nat
    decreases s.len(),
{
    if s.len() == 0 || !is_digit(s[0]) { 0 } else { 1 + digit_run(s.drop_first()) }
}

/// The marker FFmpeg's tee muxer prints before the index of a failed slave.
pub open spec fn slave_marker() -> Seq<char> {
    "Slave muxer #"@
}

/// The first position of `needle` in `hay`.
pub open spec fn first_occurrence(hay: Seq<char>, needle: Seq<char>) -> int {
    choose|p: int| occurs_at(hay, needle, p) && forall|q: int| 0 <= q < p ==> !occurs_at(hay, needle, q)
}

/// The index of the failed tee slave named in a log line: the digits after
/// the first "Slave muxer #", when there are some and they fit in `usize`.
pub open spec fn tee_slave_index(line: Seq<char>) -> Option<usize> {
    if exists|p: int| occurs_at(line, slave_marker(), p) {
        let start = first_occurrence(line, slave_marker()) + slave_marker().len();
        let rest = line.subrange(start, line.len() as int);
        let d = rest.subrange(0, digit_run(rest) as int);
        if d.len() == 0 || digits_value(d) > usize::MAX {
            None
        } else {
            Some(digits_value(d) as usize)
        }
    } else {
        None
    }
}

proof fn lemma_digit_run_scan(s: Seq<char>, k: int)
    requires
        0 <= k <= s.len(),
        forall|j: int| 0 <= j < k ==> is_digit(#[trigger] s[j]),
        k == s.len() || !is_digit(s[k]),
    ensures
        digit_run(s) == k,
    decreases s.len(),
{
    if k > 0 {
        assert forall|j: int| 0 <= j < k - 1 implies is_digit(#[trigger] s.drop_first()[j]) by {
            assert(s.drop_first()[j] == s[j + 1]);
        }
        if k - 1 < s.drop_first().len() {
            assert(s.drop_first()[k - 1] == s[k]);
        }
        lemma_digit_run_scan(s.drop_first(), k - 1);
    }
}

/// The index of the failed destination in a tee muxer error line.
pub fn parse_tee_slave_muxer_index(line: &str) -> (r: Option<usize>)
    ensures
        r == tee_slave_index(line@),
{
    let v = chars_of(line);
    let marker = chars_of("Slave muxer #");
    let found = find_from(&v, &marker, 0);
    match found {
        None => {
            assert(!exists|p: int| occurs_at(line@, slave_marker(), p)) by {
                assert forall|p: int| !occurs_at(line@, slave_marker(), p) by {
                    if p < 0 {}
                }
            }
            None
        },
        Some(pos) => {
            proof {
                assert(occurs_at(v@, marker@, pos as int));
                let fp = first_occurrence(line@, slave_marker());
                assert(occurs_at(line@, slave_marker(), fp) && forall|q: int| 0 <= q < fp ==> !occurs_at(line@, slave_marker(), q));
                if fp < pos {
                } else if fp > pos {
                }
                assert(fp == pos);
            }
            let vlen = v.len();
            assert(pos + marker@.len() <= vlen);
            let start = pos + marker.len();
            let n = v.len();
            let mut k = start;
            let mut acc: usize = 0;
            let mut overflow = false;
            let ghost rest = v@.subrange(start as int, n as int);
            while k < n && v[k] >= '0' && v[k] <= '9'
                invariant
                    start <= k <= n,
                    n == v@.len(),
                    rest == v@.subrange(start as int, n as int),
                    forall|j: int| start <= j < k ==> is_digit(#[trigger] v@[j]),
                    !overflow ==> acc == digits_value(v@.subrange(start as int, k as int)),
                    overflow ==> digits_value(v@.subrange(start as int, k as int)) > usize::MAX,
                decreases n - k,
            {
                let ghost prev = v@.subrange(start as int, k as int);
                let d = (v[k] as u32 - '0' as u32) as usize;
                proof {
                    assert(v@.subrange(start as int, k + 1).drop_last() =~= prev);
                    assert(d == digit_value(v@[k as int]));
                }
                if !overflow {
                    match acc.checked_mul(10) {
                        Some(m) => match m.checked_add(d) {
                            Some(a) => { acc = a; },
                            None => { overflow = true; },
                        },
                        None => {
                            overflow = true;
                            assert(acc * 10 + d > usize::MAX);
                        },
                    }
                } else {
                    assert(digits_value(v@.subrange(start as int, k + 1)) >= digits_value(prev));
                }
                k = k + 1;
            }
            proof {
                assert forall|j: int| 0 <= j < k - start implies is_digit(#[trigger] rest[j]) by {
                    assert(rest[j] == v@[start + j]);
                }
                if k < n {
                    assert(rest[k - start] == v@[k as int]);
                }
                lemma_digit_run_scan(rest, k - start);
                assert(rest.subrange(0, k - start) =~= v@.subrange(start as int, k as int));
            }
            if k == start || overflow {
                None
            } else {
                Some(acc)
            }
        },
    }
}

/// The position of the first `c` in `s`.
pub open spec fn first_char_index(s: Seq<char>, c: char) -> Option<int>
    decreases s.len(),
{
    if s.len() == 0 {
        None
    } else if s[0] == c {
        Some(0)
    } else {
        match first_char_index(s.drop_first(), c) {
            Some(i) => Some(i + 1),
            None => None,
        }
    }
}

proof fn lemma_first_char_index(s: Seq<char>, c: char, k: int)
    requires
        0 <= k <= s.len(),
        forall|j: int| 0 <= j < k ==> s[j] != c,
        k == s.len() || s[k] == c,
    ensures
        first_char_index(s, c) == if k == s.len() { None::<int> } else { Some(k) },
    decreases s.len(),
{
    if s.len() > 0 && k > 0 {
        assert forall|j: int| 0 <= j < k - 1 implies s.drop_first()[j] != c by {
            assert(s.drop_first()[j] == s[j + 1]);
        }
        if k < s.len() {
            assert(s.drop_first()[k - 1] == s[k]);
        }
        lemma_first_char_index(s.drop_first(), c, k - 1);
    }
}

/// A `u64` as `str::parse` reads it.
pub open spec fn parsed_u64(s: Seq<char>) -> Option<u64> {
    match parse_unsigned(s, u64::MAX as nat) {
        Some(n) => Some(n as u64),
        None => None,
    }
}

/// One line of FFmpeg's `-progress` output, by its key: the float fields
/// keep their raw text, the counters are parsed.
#[derive(Debug)]
pub enum ProgressLine {
    Fps(String),
    Speed(String),
    OutTimeUs(Option<u64>),
    DupFrames(Option<u64>),
    DropFrames(Option<u64>),
    /// `progress=...` closes a block of fields.
    Progress,
    Other,
}

/// What a `key=value` progress line says; a line without `=` says nothing.
pub open spec fn progress_line_matches(line: Seq<char>, r: ProgressLine) -> bool {
    match first_char_index(line, '=') {
        None => r is Other,
        Some(i) => {
            let key = line.subrange(0, i);
            let value = line.subrange(i + 1, line.len() as int);
            if key == "fps"@ {
                r matches ProgressLine::Fps(v) && v@ == value
            } else if key == "speed"@ {
                r matches ProgressLine::Speed(v) && v@ == value
            } else if key == "out_time_us"@ || key == "out_time_ms"@ {
                r matches ProgressLine::OutTimeUs(n) && n == parsed_u64(value)
            } else if key == "dup_frames"@ {
                r matches ProgressLine::DupFrames(n) && n == parsed_u64(value)
            } else if key == "drop_frames"@ {
                r matches ProgressLine::DropFrames(n) && n == parsed_u64(value)
            } else if key == "progress"@ {
                r is Progress
            } else {
                r is Other
            }
        },
    }
}

fn parse_u64_opt(s: &str) -> (r: Option<u64>)
    ensures
        r == parsed_u64(s@),
{
    parse_u64(s)
}

/// Classifies one line of FFmpeg's `-progress` output.
pub fn classify_progress_line(line: &str) -> (r: ProgressLine)
    ensures
        progress_line_matches(line@, r),
{
    let v = chars_of(line);
    let n = v.len();
    let mut i: usize = 0;
    while i < n && v[i] != '='
        invariant
            i <= n,
            n == v@.len(),
            v@ == line@,
            forall|j: int| 0 <= j < i ==> v@[j] != '=',
        decreases n - i,
    {
        i = i + 1;
    }
    proof {
        lemma_first_char_index(line@, '=', i as int);
    }
    if i == n {
        return ProgressLine::Other;
    }
    let key = line.substring_char(0, i);
    let value = line.substring_char(i + 1, n);
    proof {
        assert(key@ =~= line@.subrange(0, i as int));
        assert(value@ =~= line@.subrange(i + 1, n as int));
    }
    if str_eq(key, "fps") {
        ProgressLine::Fps(string_of(&chars_of(value)))
    } else if str_eq(key, "speed") {
        ProgressLine::Speed(string_of(&chars_of(value)))
    } else if str_eq(key, "out_time_us") || str_eq(key, "out_time_ms") {
        ProgressLine::OutTimeUs(parse_u64_opt(value))
    } else if str_eq(key, "dup_frames") {
        ProgressLine::DupFrames(parse_u64_opt(value))
    } else if str_eq(key, "drop_frames") {
        ProgressLine::DropFrames(parse_u64_opt(value))
    } else if str_eq(key, "progress") {
        ProgressLine::Progress
    } else {
        ProgressLine::Other
    }
}

/// Progress blocks in a row below real-time speed before the encoder is
/// reported slow.
pub const SLOW_SPEED_ALERT_TICKS: u32 = 5;

/// The slow-encode streak after one progress block: one more when the
/// block was slow (held at `u32::MAX`), zero otherwise.
pub open spec fn slow_streak_after(streak: u32, slow: bool) -> u32 {
    if !slow {
        0
    } else if streak == u32::MAX {
        u32::MAX
    } else {
        (streak + 1) as u32
    }
}

/// Counts one progress block toward the slow-encode streak; returns the
/// streak when it reaches the alert threshold.
pub fn record_speed_tick(streak: &mut u32, slow: bool) -> (alert: Option<u32>)
    ensures
        *final(streak) == slow_streak_after(*old(streak), slow),
        alert == if slow && *final(streak) >= SLOW_SPEED_ALERT_TICKS { Some(*final(streak)) } else { None::<u32> },
{
    if slow {
        if *streak < u32::MAX {
            *streak = *streak + 1;
        }
        if *streak >= SLOW_SPEED_ALERT_TICKS {
            return Some(*streak);
        }
    } else {
        *streak = 0;
    }
    None
}

/// Reports frames FFmpeg dropped since the last report: the new total and
/// the increase, when the total grew; the last total seen moves along.
pub fn record_drop_frames(drop_frames: Option<u64>, last_drop_frames: &mut u64) -> (alert: Option<(u64, u64)>)
    ensures
        match drop_frames {
            Some(d) if d > *old(last_drop_frames) => {
                &&& alert == Some((d, (d - *old(last_drop_frames)) as u64))
                &&& *final(last_drop_frames) == d
            },
            _ => alert is None && *final(last_drop_frames) == *old(last_drop_frames),
        },
{
    match drop_frames {
        Some(d) => {
            if d > *last_drop_frames {
                let delta = d - *last_drop_frames;
                *last_drop_frames = d;
                Some((d, delta))
            } else {
                None
            }
        },
        None => None,
    }
}

} // verus!
