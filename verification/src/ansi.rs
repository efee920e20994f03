//! Removal of ANSI colour escape sequences from backend log lines.
//!
//! The backend writes coloured diagnostics; before a line is persisted to the
//! log file every sequence of the shape `ESC [ <digits and semicolons> m` is
//! removed. Everything else, including a lone `ESC` or an unterminated
//! sequence, is kept as it stands.
use vstd::prelude::*;

verus! {

/// The characters that may stand between `ESC [` and the closing `m`:
/// decimal digits and `;`.
pub open spec fn is_csi_body(c: char) -> bool {
    (48 <= c as int && c as int <= 57) || c as int == 59
}

pub open spec fn is_escape_char(c: char) -> bool {
    c as int == 27
}

/// Index of the first character at or after `i` that is not part of a
/// colour-code body.
pub open spec fn body_end(s: Seq<char>, i: int) -> int
    decreases s.len() - i
        when 0 <= i <= s.len()
{
    if i == s.len() {
        i
    } else if is_csi_body(s[i]) {
        body_end(s, i + 1)
    } else {
        i
    }
}

pub proof fn lemma_body_end_bounds(s: Seq<char>, i: int)
    requires
        0 <= i <= s.len(),
    ensures
        i <= body_end(s, i) <= s.len(),
    decreases s.len() - i,
{
    if i < s.len() && is_csi_body(s[i]) {
        lemma_body_end_bounds(s, i + 1);
    }
}

/// If a colour escape sequence starts at `i`, the index just past its
/// closing `m`; `None` when no complete sequence starts there.
pub open spec fn color_code_end(s: Seq<char>, i: int) -> Option<int> {
    if 0 <= i && i + 1 < s.len() && is_escape_char(s[i]) && s[i + 1] == '[' {
        let k = body_end(s, i + 2);
        if k < s.len() && s[k] == 'm' {
            Some(k + 1)
        } else {
            None
        }
    } else {
        None
    }
}

/// The suffix of `s` from `i` on, with every complete colour escape
/// sequence removed and every other character kept in order.
pub open spec fn strip_from(s: Seq<char>, i: int) -> Seq<char>
    decreases s.len() - i
        when 0 <= i <= s.len()
        via strip_from_decreases
{
    if i == s.len() {
        Seq::empty()
    } else {
        match color_code_end(s, i) {
            Some(e) => strip_from(s, e),
            None => seq![s[i]] + strip_from(s, i + 1),
        }
    }
}

#[via_fn]
proof fn strip_from_decreases(s: Seq<char>, i: int) {
    if 0 <= i && i + 1 < s.len() && is_escape_char(s[i]) && s[i + 1] == '[' {
        lemma_body_end_bounds(s, i + 2);
    }
}

/// The whole of `s` with every colour escape sequence removed.
pub open spec fn stripped(s: Seq<char>) -> Seq<char> {
    strip_from(s, 0)
}

/// Helper of `strip_ansi_codes`: where the colour escape sequence starting
/// at `i` ends, if a complete one starts there.
fn color_code_end_at(text: &str, n: usize, i: usize) -> (r: Option<usize>)
    requires
        n == text@.len(),
        i < n,
    ensures
        match r {
            Some(e) => color_code_end(text@, i as int) == Some(e as int),
            None => color_code_end(text@, i as int) is None,
        },
{
    let c = text.get_char(i);
    if !(c as u32 == 27) {
        return None;
    }
    if i + 1 >= n {
        return None;
    }
    if text.get_char(i + 1) != '[' {
        return None;
    }
    let mut k = i + 2;
    while k < n
        invariant
            n == text@.len(),
            i + 2 <= k <= n,
            forall|j: int| i + 2 <= j < k ==> is_csi_body(text@[j]),
        ensures
            i + 2 <= k <= n,
            forall|j: int| i + 2 <= j < k ==> is_csi_body(text@[j]),
            k == n || !is_csi_body(text@[k as int]),
        decreases n - k,
    {
        let u = text.get_char(k) as u32;
        if (48 <= u && u <= 57) || u == 59 {
            k = k + 1;
        } else {
            break;
        }
    }
    proof {
        lemma_body_end_at(text@, i + 2, k as int);
    }
    if k < n && text.get_char(k) == 'm' {
        Some(k + 1)
    } else {
        None
    }
}

proof fn lemma_body_end_at(s: Seq<char>, a: int, k: int)
    requires
        0 <= a <= k <= s.len(),
        forall|j: int| a <= j < k ==> is_csi_body(s[j]),
        k == s.len() || !is_csi_body(s[k]),
    ensures
        body_end(s, a) == k,
    decreases k - a,
{
    if a < k {
        lemma_body_end_at(s, a + 1, k);
    }
}

/// Returns `text` with every ANSI colour escape sequence
/// (`ESC [ <digits and semicolons> m`) removed.
pub fn strip_ansi_codes(text: &str) -> (r: String)
    ensures
        r@ == stripped(text@),
{
    let n = text.unicode_len();
    let mut out = String::new();
    let mut i: usize = 0;
    while i < n
        invariant
            n == text@.len(),
            i <= n,
            out@ + strip_from(text@, i as int) == stripped(text@),
        decreases n - i,
    {
        match color_code_end_at(text, n, i) {
            Some(e) => {
                proof {
                    lemma_body_end_bounds(text@, i + 2);
                }
                i = e;
            }
            None => {
                let piece = text.substring_char(i, i + 1);
                proof {
                    assert(piece@ =~= seq![text@[i as int]]);
                    assert(out@ + (seq![text@[i as int]] + strip_from(text@, i as int + 1)) =~= (
                    out@ + piece@) + strip_from(text@, i as int + 1));
                }
                out.append(piece);
                i = i + 1;
            }
        }
    }
    proof {
        assert(out@ + strip_from(text@, n as int) =~= out@);
    }
    out
}

/// A line in which no escape character occurs is left unchanged by
/// stripping.
pub proof fn lemma_strip_escape_free(s: Seq<char>)
    requires
        forall|j: int| 0 <= j < s.len() ==> !is_escape_char(s[j]),
    ensures
        stripped(s) == s,
{
    lemma_strip_from_escape_free(s, 0);
    assert(s.subrange(0, s.len() as int) =~= s);
}

proof fn lemma_strip_from_escape_free(s: Seq<char>, i: int)
    requires
        0 <= i <= s.len(),
        forall|j: int| 0 <= j < s.len() ==> !is_escape_char(s[j]),
    ensures
        strip_from(s, i) == s.subrange(i, s.len() as int),
    decreases s.len() - i,
{
    if i == s.len() {
        assert(s.subrange(i, s.len() as int) =~= Seq::<char>::empty());
    } else {
        assert(color_code_end(s, i) is None);
        lemma_strip_from_escape_free(s, i + 1);
        assert(seq![s[i]] + s.subrange(i + 1, s.len() as int) =~= s.subrange(i, s.len() as int));
    }
}

} // verus!
