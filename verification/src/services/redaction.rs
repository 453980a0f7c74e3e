//! Diagnostics written to the panel log never show a server's download token.
use vstd::prelude::*;

use crate::text::replace_all;

use super::game_config::{spec_diagnostic_detail, MAX_DIAGNOSTIC_CHARS};
use super::paths::token_ok;

verus! {

pub open spec fn hex_digit(c: char) -> bool {
    ('0' <= c && c <= '9') || ('a' <= c && c <= 'f')
}

/// `pat` occurs in `s` starting at `i`.
pub open spec fn occurs_at(s: Seq<char>, pat: Seq<char>, i: int) -> bool {
    0 <= i && i + pat.len() <= s.len() && s.subrange(i, i + pat.len()) == pat
}

pub open spec fn occurs_in(s: Seq<char>, pat: Seq<char>) -> bool {
    exists|i: int| occurs_at(s, pat, i)
}

/// The replacement starts and ends with characters no token contains, and is
/// shorter than a token.
pub open spec fn fenced(rep: Seq<char>, pat: Seq<char>) -> bool {
    &&& rep.len() > 0
    &&& rep.len() < pat.len()
    &&& !hex_digit(rep[0])
    &&& !hex_digit(rep.last())
}

pub open spec fn all_hex(pat: Seq<char>) -> bool {
    forall|i: int| 0 <= i < pat.len() ==> hex_digit(#[trigger] pat[i])
}

/// Up to the first replacement, the result is the original text, and a
/// replacement starts with a character no token contains.
proof fn lemma_replace_prefix(s: Seq<char>, pat: Seq<char>, rep: Seq<char>, m: int)
    requires
        pat.len() > 0,
        fenced(rep, pat),
        0 <= m <= replace_all(s, pat, rep).len(),
        m <= s.len(),
    ensures
        replace_all(s, pat, rep).subrange(0, m) == s.subrange(0, m) || exists|k: int|
            0 <= k < m && !hex_digit(#[trigger] replace_all(s, pat, rep)[k]),
    decreases s.len(),
{
    let r = replace_all(s, pat, rep);
    if m == 0 {
        assert(r.subrange(0, 0) =~= s.subrange(0, 0));
    } else if s.len() < pat.len() {
    } else if s.subrange(0, pat.len() as int) == pat {
        assert(r[0] == rep[0]);
    } else {
        let s1 = s.drop_first();
        let r1 = replace_all(s1, pat, rep);
        assert(r == seq![s[0]] + r1);
        lemma_replace_prefix(s1, pat, rep, m - 1);
        if r1.subrange(0, m - 1) == s1.subrange(0, m - 1) {
            assert(r.subrange(0, m) =~= s.subrange(0, m)) by {
                assert forall|j: int| 0 <= j < m implies r.subrange(0, m)[j] == s.subrange(
                    0,
                    m,
                )[j] by {
                    if j > 0 {
                        assert(r1.subrange(0, m - 1)[j - 1] == s1.subrange(0, m - 1)[j - 1]);
                        assert(r[j] == r1[j - 1]);
                        assert(s[j] == s1[j - 1]);
                    }
                }
            }
        } else {
            let k = choose|k: int| 0 <= k < m - 1 && !hex_digit(#[trigger] r1[k]);
            assert(r[k + 1] == r1[k]);
        }
    }
}

/// A window that overlaps a fenced replacement holds a character no token contains.
proof fn lemma_no_occurrence(s: Seq<char>, pat: Seq<char>, rep: Seq<char>)
    requires
        pat.len() > 0,
        all_hex(pat),
        fenced(rep, pat),
    ensures
        !occurs_in(replace_all(s, pat, rep), pat),
    decreases s.len(),
{
    let r = replace_all(s, pat, rep);
    let n = pat.len() as int;
    if s.len() < pat.len() {
        assert forall|i: int| !occurs_at(r, pat, i) by {}
    } else if s.subrange(0, n) == pat {
        let s1 = s.skip(n);
        let r1 = replace_all(s1, pat, rep);
        assert(r == rep + r1);
        lemma_no_occurrence(s1, pat, rep);
        assert forall|i: int| !occurs_at(r, pat, i) by {
            if occurs_at(r, pat, i) {
                let l = rep.len() as int;
                if i >= l {
                    assert(r.subrange(i, i + n) =~= r1.subrange(i - l, i - l + n));
                    assert(occurs_at(r1, pat, i - l));
                } else {
                    // the window covers the last character of the replacement
                    assert(i <= l - 1 < i + n);
                    assert(r.subrange(i, i + n)[l - 1 - i] == r[l - 1]);
                    assert(r[l - 1] == rep.last());
                    assert(hex_digit(pat[l - 1 - i]));
                }
            }
        }
    } else {
        let s1 = s.drop_first();
        let r1 = replace_all(s1, pat, rep);
        assert(r == seq![s[0]] + r1);
        lemma_no_occurrence(s1, pat, rep);
        assert forall|i: int| !occurs_at(r, pat, i) by {
            if occurs_at(r, pat, i) {
                if i >= 1 {
                    assert(r.subrange(i, i + n) =~= r1.subrange(i - 1, i - 1 + n));
                    assert(occurs_at(r1, pat, i - 1));
                } else {
                    lemma_replace_prefix(s, pat, rep, n);
                    if r.subrange(0, n) == s.subrange(0, n) {
                    } else {
                        let k = choose|k: int| 0 <= k < n && !hex_digit(#[trigger] r[k]);
                        assert(r.subrange(0, n)[k] == r[k]);
                        assert(hex_digit(pat[k]));
                    }
                }
            }
        }
    }
}

/// Log excerpts of a server's command output are bounded, and never contain
/// the server's download token.
pub proof fn diagnostics_hide_the_token(value: Seq<char>, token: Seq<char>)
    requires
        token_ok(token),
    ensures
        !occurs_in(spec_diagnostic_detail(value, token), token),
        spec_diagnostic_detail(value, token).len() <= MAX_DIAGNOSTIC_CHARS + " [truncated]"@.len(),
{
    reveal_strlit("[redacted]");
    reveal_strlit(" [truncated]");
    let rep = "[redacted]"@;
    assert(all_hex(token)) by {
        assert forall|i: int| 0 <= i < token.len() implies hex_digit(#[trigger] token[i]) by {
            assert(('0' <= token[i] && token[i] <= '9') || ('a' <= token[i] && token[i] <= 'f'));
        }
    }
    assert(fenced(rep, token));
    let redacted = replace_all(value, token, rep);
    lemma_no_occurrence(value, token, rep);
    let detail = spec_diagnostic_detail(value, token);
    let n = token.len() as int;
    if redacted.len() > MAX_DIAGNOSTIC_CHARS {
        let cut = MAX_DIAGNOSTIC_CHARS as int;
        let head = redacted.take(cut);
        let tail = " [truncated]"@;
        assert(detail == head + tail);
        assert forall|i: int| !occurs_at(detail, token, i) by {
            if occurs_at(detail, token, i) {
                if i + n <= cut {
                    assert(detail.subrange(i, i + n) =~= redacted.subrange(i, i + n));
                    assert(occurs_at(redacted, token, i));
                } else if i <= cut {
                    assert(detail.subrange(i, i + n)[cut - i] == tail[0]);
                    assert(hex_digit(token[cut - i]));
                } else {
                    assert(i + n > detail.len());
                }
            }
        }
    }
}

} // verus!
