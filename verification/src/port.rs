//! Discovery of the backend's port in its log output.
//!
//! The backend is asked to bind a fixed port but is free to choose another;
//! the port it actually bound is announced in a log line of the shape
//! `Uvicorn running on http://127.0.0.1:<port> ...`. A line announces a port
//! when it contains the literal `Uvicorn running on` somewhere and the text
//! after the first `http://127.0.0.1:` starts with a whitespace-delimited
//! token that reads as an unsigned 16-bit decimal number (an optional `+`
//! sign is accepted). Anything else is silently ignored.
use vstd::prelude::*;

verus! {

/// `pat` occurs in `s` starting at index `i`.
pub open spec fn matches_at(s: Seq<char>, pat: Seq<char>, i: int) -> bool {
    &&& 0 <= i
    &&& i + pat.len() <= s.len()
    &&& forall|j: int| 0 <= j < pat.len() ==> s[i + j] == pat[j]
}

/// Index of the first occurrence of `pat` in `s` at or after `i`, if any.
pub open spec fn first_match_from(s: Seq<char>, pat: Seq<char>, i: int) -> Option<int>
    decreases s.len() - i
        when 0 <= i <= s.len()
{
    if i + pat.len() > s.len() {
        None
    } else if matches_at(s, pat, i) {
        Some(i)
    } else {
        first_match_from(s, pat, i + 1)
    }
}

pub open spec fn contains_pattern(s: Seq<char>, pat: Seq<char>) -> bool {
    first_match_from(s, pat, 0) is Some
}

proof fn lemma_no_match_from(s: Seq<char>, pat: Seq<char>, i: int)
    requires
        0 <= i <= s.len(),
        forall|k: int| !matches_at(s, pat, k),
    ensures
        first_match_from(s, pat, i) is None,
    decreases s.len() - i,
{
    if i + pat.len() <= s.len() {
        lemma_no_match_from(s, pat, i + 1);
    }
}

proof fn lemma_match_found(s: Seq<char>, pat: Seq<char>, i: int, k: int)
    requires
        0 <= i <= k,
        matches_at(s, pat, k),
    ensures
        first_match_from(s, pat, i) is Some,
    decreases k - i,
{
    if !matches_at(s, pat, i) {
        lemma_match_found(s, pat, i + 1, k);
    }
}

/// A pattern is absent exactly when no index matches it.
pub proof fn lemma_contains_pattern_iff(s: Seq<char>, pat: Seq<char>)
    ensures
        contains_pattern(s, pat) <==> exists|i: int| matches_at(s, pat, i),
{
    if contains_pattern(s, pat) {
        if forall|k: int| !matches_at(s, pat, k) {
            lemma_no_match_from(s, pat, 0);
        }
    }
    if exists|i: int| matches_at(s, pat, i) {
        let k = choose|i: int| matches_at(s, pat, i);
        lemma_match_found(s, pat, 0, k);
    }
}

/// Index of the first occurrence of `pat` in `hay`, scanning left to right.
fn find_pattern(hay: &str, hn: usize, pat: &str, pn: usize) -> (r: Option<usize>)
    requires
        hn == hay@.len(),
        pn == pat@.len(),
    ensures
        match r {
            Some(i) => matches_at(hay@, pat@, i as int) && first_match_from(hay@, pat@, 0)
                == Some(i as int),
            None => first_match_from(hay@, pat@, 0) is None,
        },
{
    if pn > hn {
        return None;
    }
    if pn == 0 {
        assert(matches_at(hay@, pat@, 0));
        return Some(0);
    }
    let mut i: usize = 0;
    while i <= hn - pn
        invariant
            hn == hay@.len(),
            pn == pat@.len(),
            1 <= pn <= hn,
            i <= hn - pn + 1,
            first_match_from(hay@, pat@, 0) == first_match_from(hay@, pat@, i as int),
        decreases hn - i,
    {
        let mut j: usize = 0;
        while j < pn
            invariant
                hn == hay@.len(),
                pn == pat@.len(),
                pn <= hn,
                i <= hn - pn,
                j <= pn,
                forall|k: int| 0 <= k < j ==> hay@[i + k] == pat@[k],
            ensures
                j <= pn,
                forall|k: int| 0 <= k < j ==> hay@[i + k] == pat@[k],
                j == pn || hay@[i + j] != pat@[j as int],
            decreases pn - j,
        {
            if hay.get_char(i + j) != pat.get_char(j) {
                break;
            }
            j = j + 1;
        }
        if j == pn {
            assert(matches_at(hay@, pat@, i as int));
            return Some(i);
        }
        assert(!matches_at(hay@, pat@, i as int));
        i = i + 1;
    }
    assert(i as int + pat@.len() > hay@.len());
    None
}

/// The whitespace recognised by the token scan: the characters with the
/// Unicode `White_Space` property.
pub open spec fn is_space(c: char) -> bool {
    let u = c as int;
    ||| u == 9
    ||| u == 10
    ||| u == 11
    ||| u == 12
    ||| u == 13
    ||| u == 32
    ||| u == 0x85
    ||| u == 0xa0
    ||| u == 0x1680
    ||| (0x2000 <= u && u <= 0x200a)
    ||| u == 0x2028
    ||| u == 0x2029
    ||| u == 0x202f
    ||| u == 0x205f
    ||| u == 0x3000
}

fn is_space_char(c: char) -> (b: bool)
    ensures
        b == is_space(c),
{
    let u = c as u32;
    u == 9 || u == 10 || u == 11 || u == 12 || u == 13 || u == 32 || u == 0x85 || u == 0xa0 || u
        == 0x1680 || (0x2000 <= u && u <= 0x200a) || u == 0x2028 || u == 0x2029 || u == 0x202f || u
        == 0x205f || u == 0x3000
}

/// Index of the first non-whitespace character at or after `i`.
pub open spec fn skip_spaces(s: Seq<char>, i: int) -> int
    decreases s.len() - i
        when 0 <= i <= s.len()
{
    if i == s.len() {
        i
    } else if is_space(s[i]) {
        skip_spaces(s, i + 1)
    } else {
        i
    }
}

/// Index of the first whitespace character at or after `i`.
pub open spec fn token_end(s: Seq<char>, i: int) -> int
    decreases s.len() - i
        when 0 <= i <= s.len()
{
    if i == s.len() {
        i
    } else if !is_space(s[i]) {
        token_end(s, i + 1)
    } else {
        i
    }
}

/// The first whitespace-delimited token of `s` at or after `from`, if any.
pub open spec fn first_token_from(s: Seq<char>, from: int) -> Option<Seq<char>> {
    let a = skip_spaces(s, from);
    if a == s.len() {
        None
    } else {
        Some(s.subrange(a, token_end(s, a)))
    }
}

proof fn lemma_skip_spaces_at(s: Seq<char>, from: int, a: int)
    requires
        0 <= from <= a <= s.len(),
        forall|j: int| from <= j < a ==> is_space(s[j]),
        a == s.len() || !is_space(s[a]),
    ensures
        skip_spaces(s, from) == a,
    decreases a - from,
{
    if from < a {
        lemma_skip_spaces_at(s, from + 1, a);
    }
}

proof fn lemma_token_end_at(s: Seq<char>, from: int, e: int)
    requires
        0 <= from <= e <= s.len(),
        forall|j: int| from <= j < e ==> !is_space(s[j]),
        e == s.len() || is_space(s[e]),
    ensures
        token_end(s, from) == e,
    decreases e - from,
{
    if from < e {
        lemma_token_end_at(s, from + 1, e);
    }
}

/// The first whitespace-delimited token of `line` at or after `from`.
fn first_token<'a>(line: &'a str, n: usize, from: usize) -> (r: Option<&'a str>)
    requires
        n == line@.len(),
        from <= n,
    ensures
        match r {
            Some(t) => first_token_from(line@, from as int) == Some(t@),
            None => first_token_from(line@, from as int) is None,
        },
{
    let mut a = from;
    while a < n
        invariant
            n == line@.len(),
            from <= a <= n,
            forall|j: int| from <= j < a ==> is_space(line@[j]),
        ensures
            from <= a <= n,
            forall|j: int| from <= j < a ==> is_space(line@[j]),
            a == n || !is_space(line@[a as int]),
        decreases n - a,
    {
        if is_space_char(line.get_char(a)) {
            a = a + 1;
        } else {
            break;
        }
    }
    proof {
        lemma_skip_spaces_at(line@, from as int, a as int);
    }
    if a == n {
        return None;
    }
    let mut e = a;
    while e < n
        invariant
            n == line@.len(),
            a <= e <= n,
            forall|j: int| a <= j < e ==> !is_space(line@[j]),
        ensures
            a <= e <= n,
            forall|j: int| a <= j < e ==> !is_space(line@[j]),
            e == n || is_space(line@[e as int]),
        decreases n - e,
    {
        if !is_space_char(line.get_char(e)) {
            e = e + 1;
        } else {
            break;
        }
    }
    proof {
        lemma_token_end_at(line@, a as int, e as int);
    }
    Some(line.substring_char(a, e))
}

pub open spec fn is_digit_char(c: char) -> bool {
    48 <= c as int && c as int <= 57
}

pub open spec fn digit_val(c: char) -> int {
    c as int - 48
}

pub open spec fn all_digits(s: Seq<char>) -> bool {
    forall|i: int| 0 <= i < s.len() ==> is_digit_char(s[i])
}

/// The value of a string of decimal digits, most significant first.
pub open spec fn dec_value(s: Seq<char>) -> int
    decreases s.len(),
{
    if s.len() == 0 {
        0
    } else {
        dec_value(s.drop_last()) * 10 + digit_val(s.last())
    }
}

/// The digits of a port token: an optional leading `+` sign is dropped.
pub open spec fn digits_of_token(t: Seq<char>) -> Seq<char> {
    if t.len() > 0 && t[0] == '+' {
        t.subrange(1, t.len() as int)
    } else {
        t
    }
}

/// What a token yields as a port: its digits read as a decimal number, if
/// they are non-empty, all decimal, and the value fits in sixteen bits.
pub open spec fn parse_port_token(t: Seq<char>) -> Option<u16> {
    let d = digits_of_token(t);
    if d.len() > 0 && all_digits(d) && dec_value(d) <= 65535 {
        Some(dec_value(d) as u16)
    } else {
        None
    }
}

proof fn lemma_dec_value_nonneg(s: Seq<char>)
    requires
        all_digits(s),
    ensures
        dec_value(s) >= 0,
    decreases s.len(),
{
    if s.len() > 0 {
        assert(all_digits(s.drop_last()));
        lemma_dec_value_nonneg(s.drop_last());
    }
}

/// Reading more digits never shrinks the value.
proof fn lemma_dec_value_prefix_le(s: Seq<char>, k: int)
    requires
        all_digits(s),
        0 <= k <= s.len(),
    ensures
        dec_value(s.subrange(0, k)) <= dec_value(s),
    decreases s.len() - k,
{
    if k == s.len() {
        assert(s.subrange(0, k) =~= s);
    } else {
        assert(s.subrange(0, k + 1).drop_last() =~= s.subrange(0, k));
        assert(all_digits(s.subrange(0, k)));
        lemma_dec_value_nonneg(s.subrange(0, k));
        lemma_dec_value_prefix_le(s, k + 1);
    }
}

/// Reads a port token the way the backend's log is read: optional `+`,
/// decimal digits, value at most `u16::MAX`; anything else yields `None`.
fn parse_port_str(tok: &str) -> (r: Option<u16>)
    ensures
        r == parse_port_token(tok@),
{
    let n = tok.unicode_len();
    if n == 0 {
        return None;
    }
    let start: usize = if tok.get_char(0) == '+' {
        1
    } else {
        0
    };
    let ghost d = digits_of_token(tok@);
    proof {
        assert(d =~= tok@.subrange(start as int, n as int));
    }
    if start == n {
        return None;
    }
    let mut i = start;
    let mut acc: u32 = 0;
    while i < n
        invariant
            n == tok@.len(),
            start <= i <= n,
            d == digits_of_token(tok@),
            d =~= tok@.subrange(start as int, n as int),
            all_digits(tok@.subrange(start as int, i as int)),
            acc == dec_value(tok@.subrange(start as int, i as int)),
            acc <= 65535,
        decreases n - i,
    {
        let c = tok.get_char(i);
        let u = c as u32;
        if u < 48 || u > 57 {
            proof {
                assert(!is_digit_char(c));
                assert(d[i - start] == tok@[i as int]);
                assert(!is_digit_char(d[i - start]));
                assert(!all_digits(d));
            }
            return None;
        }
        let next = acc * 10 + (u - 48);
        proof {
            assert(is_digit_char(c));
            assert(tok@.subrange(start as int, i as int + 1).drop_last() =~= tok@.subrange(
                start as int,
                i as int,
            ));
            assert(tok@.subrange(start as int, i as int + 1).last() == tok@[i as int]);
            assert(dec_value(tok@.subrange(start as int, i as int + 1)) == acc * 10 + digit_val(c));
            assert(digit_val(c) == u - 48);
        }
        if next > 65535 {
            proof {
                if all_digits(d) {
                    assert(d.subrange(0, i as int + 1 - start) =~= tok@.subrange(
                        start as int,
                        i as int + 1,
                    ));
                    lemma_dec_value_prefix_le(d, i as int + 1 - start);
                    assert(dec_value(d) > 65535);
                }
                assert(parse_port_token(tok@) is None);
            }
            return None;
        }
        acc = next;
        i = i + 1;
    }
    Some(acc as u16)
}

/// The line that announces the backend's port.
pub open spec fn uvicorn_marker() -> Seq<char> {
    "Uvicorn running on"@
}

/// The address prefix the announced port follows.
pub open spec fn url_marker() -> Seq<char> {
    "http://127.0.0.1:"@
}

/// The port a log line announces, if any: the line must contain
/// `Uvicorn running on`, and the first whitespace-delimited token after the
/// first `http://127.0.0.1:` must read as an unsigned 16-bit number.
pub open spec fn port_announcement(line: Seq<char>) -> Option<u16> {
    if contains_pattern(line, uvicorn_marker()) {
        match first_match_from(line, url_marker(), 0) {
            Some(i) => match first_token_from(line, i + url_marker().len()) {
                Some(t) => parse_port_token(t),
                None => None,
            },
            None => None,
        }
    } else {
        None
    }
}

/// Scans a log line for the backend's port announcement.
pub fn extract_port(line: &str) -> (r: Option<u16>)
    ensures
        r == port_announcement(line@),
{
    let n = line.unicode_len();
    let um = "Uvicorn running on";
    let um_len = um.unicode_len();
    if find_pattern(line, n, um, um_len).is_none() {
        return None;
    }
    let pm = "http://127.0.0.1:";
    let pm_len = pm.unicode_len();
    match find_pattern(line, n, pm, pm_len) {
        None => None,
        Some(i) => {
            let from = i + pm_len;
            match first_token(line, n, from) {
                None => None,
                Some(t) => parse_port_str(t),
            }
        }
    }
}

/// A line in which `Uvicorn running on` occurs nowhere announces no port.
pub proof fn lemma_line_without_marker_is_silent(line: Seq<char>)
    requires
        forall|i: int| !matches_at(line, uvicorn_marker(), i),
    ensures
        port_announcement(line) is None,
{
    lemma_contains_pattern_iff(line, uvicorn_marker());
}

} // verus!
