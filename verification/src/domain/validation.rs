//! Input restrictions shared by panel settings and daemon command arguments.
use vstd::prelude::*;

use crate::http::{bad_request_view, fails_with, ApiError};
use crate::text::{chars_of, split, split_vec};

verus! {

pub open spec fn has_prefix(s: Seq<char>, p: Seq<char>) -> bool {
    p.len() <= s.len() && s.subrange(0, p.len() as int) == p
}

/// What follows an accepted scheme: `https://`, or `http://` unless HTTPS is required.
pub open spec fn url_rest(v: Seq<char>, https_only: bool) -> Option<Seq<char>> {
    if has_prefix(v, "https://"@) {
        Some(v.skip("https://"@.len() as int))
    } else if !https_only && has_prefix(v, "http://"@) {
        Some(v.skip("http://"@.len() as int))
    } else {
        None
    }
}

/// Characters a URL may not contain: controls, space, non-ASCII, and those
/// that would carry credentials, queries, fragments, escapes or quotes.
pub open spec fn url_char_invalid(c: char) -> bool {
    ||| c <= ' '
    ||| c >= '\u{7f}'
    ||| c == '"' || c == '\'' || c == '\\' || c == '#' || c == '?' || c == '%' || c == '@'
}

pub open spec fn is_dot_component(c: Seq<char>) -> bool {
    c == seq!['.'] || c == seq!['.', '.']
}

/// Some `/`-separated component of `s` is `.` or `..`.
pub open spec fn has_dot_component(s: Seq<char>) -> bool {
    exists|k: int| 0 <= k < split(s, '/').len() && is_dot_component(#[trigger] split(s, '/')[k])
}

/// The host part is empty or could be read as an option.
pub open spec fn invalid_authority(rest: Seq<char>) -> bool {
    let authority = split(rest, '/')[0];
    authority.len() == 0 || authority[0] == '-'
}

/// The conditions `validate_url` accepts once the scheme is known.
pub open spec fn url_body_ok(v: Seq<char>, rest: Seq<char>) -> bool {
    &&& v.len() <= 2048
    &&& !invalid_authority(rest)
    &&& forall|i: int| 0 <= i < v.len() ==> !url_char_invalid(#[trigger] v[i])
    &&& !has_dot_component(rest)
}

pub open spec fn url_ok(v: Seq<char>, https_only: bool) -> bool {
    match url_rest(v, https_only) {
        Some(rest) => url_body_ok(v, rest),
        None => false,
    }
}

/// `char::is_control`: the Unicode `Cc` category.
pub open spec fn is_control(c: char) -> bool {
    c <= '\u{1f}' || ('\u{7f}' <= c && c <= '\u{9f}')
}

/// Bytes needed to encode one character in UTF-8.
pub open spec fn utf8_width(c: char) -> nat {
    if c <= '\u{7f}' {
        1
    } else if c <= '\u{7ff}' {
        2
    } else if c <= '\u{ffff}' {
        3
    } else {
        4
    }
}

/// Length of the UTF-8 encoding (`str::len`).
pub open spec fn utf8_len(s: Seq<char>) -> nat
    decreases s.len(),
{
    if s.len() == 0 {
        0
    } else {
        utf8_len(s.drop_last()) + utf8_width(s.last())
    }
}

pub proof fn lemma_utf8_len_monotone(s: Seq<char>, k: int)
    requires
        0 <= k <= s.len(),
    ensures
        utf8_len(s.subrange(0, k)) <= utf8_len(s),
    decreases s.len() - k,
{
    if k < s.len() {
        lemma_utf8_len_monotone(s, k + 1);
        assert(s.subrange(0, k + 1).drop_last() == s.subrange(0, k));
    } else {
        assert(s.subrange(0, k) == s);
    }
}

/// True when the UTF-8 encoding of `s` is longer than `limit` bytes.
pub fn utf8_len_exceeds(s: &Vec<char>, limit: usize) -> (r: bool)
    requires
        limit < usize::MAX - 4,
    ensures
        r == (utf8_len(s@) > limit),
{
    let mut total: usize = 0;
    let mut i: usize = 0;
    while i < s.len()
        invariant
            i <= s.len(),
            limit < usize::MAX - 4,
            total as nat == utf8_len(s@.subrange(0, i as int)),
            total <= limit,
        decreases s.len() - i,
    {
        let c = s[i];
        let w: usize = if c <= '\u{7f}' {
            1
        } else if c <= '\u{7ff}' {
            2
        } else if c <= '\u{ffff}' {
            3
        } else {
            4
        };
        assert(s@.subrange(0, i + 1).drop_last() == s@.subrange(0, i as int));
        total = total + w;
        i = i + 1;
        if total > limit {
            proof {
                lemma_utf8_len_monotone(s@, i as int);
            }
            return true;
        }
    }
    assert(s@.subrange(0, s@.len() as int) == s@);
    false
}

pub open spec fn relative_char_invalid(c: char) -> bool {
    ||| is_control(c)
    ||| c == '\\' || c == ':' || c == '%' || c == '"' || c == '\'' || c == '<' || c == '>'
    ||| c == '|' || c == '?' || c == '*' || c == '{' || c == '}'
}

/// A component that is empty, hidden, `.`/`..`, or that Windows would silently rewrite.
pub open spec fn relative_component_invalid(c: Seq<char>) -> bool {
    c.len() == 0 || c[0] == '.' || c.last() == '.' || c.last() == ' '
}

/// A non-empty relative path of at most 512 bytes with only ordinary components and characters.
pub open spec fn relative_path_ok(v: Seq<char>) -> bool {
    &&& v.len() > 0
    &&& utf8_len(v) <= 512
    &&& forall|k: int|
        0 <= k < split(v, '/').len() ==> !relative_component_invalid(#[trigger] split(v, '/')[k])
    &&& forall|i: int| 0 <= i < v.len() ==> !relative_char_invalid(#[trigger] v[i])
}

pub open spec fn relative_ok(v: Seq<char>, allow_empty: bool) -> bool {
    (allow_empty && v.len() == 0) || relative_path_ok(v)
}

pub fn starts_with_chars(v: &Vec<char>, prefix: &str) -> (r: bool)
    ensures
        r == has_prefix(v@, prefix@),
{
    let p = chars_of(prefix);
    if p.len() > v.len() {
        return false;
    }
    let mut i: usize = 0;
    while i < p.len()
        invariant
            p@ == prefix@,
            p.len() <= v.len(),
            i <= p.len(),
            forall|j: int| 0 <= j < i ==> v@[j] == p@[j],
        decreases p.len() - i,
    {
        if v[i] != p[i] {
            assert(v@.subrange(0, p@.len() as int)[i as int] != p@[i as int]);
            return false;
        }
        i = i + 1;
    }
    assert(v@.subrange(0, p@.len() as int) =~= p@);
    true
}

fn skip_chars(v: &Vec<char>, n: usize) -> (r: Vec<char>)
    requires
        n <= v.len(),
    ensures
        r@ == v@.skip(n as int),
{
    let mut r: Vec<char> = Vec::new();
    let mut i: usize = n;
    while i < v.len()
        invariant
            n <= i <= v.len(),
            r@ == v@.subrange(n as int, i as int),
        decreases v.len() - i,
    {
        r.push(v[i]);
        i = i + 1;
        assert(v@.subrange(n as int, i as int) == v@.subrange(n as int, i - 1).push(v@[i - 1]));
    }
    r
}

fn url_char_invalid_exec(c: char) -> (r: bool)
    ensures
        r == url_char_invalid(c),
{
    c <= ' ' || c >= '\u{7f}' || c == '"' || c == '\'' || c == '\\' || c == '#' || c == '?' || c
        == '%' || c == '@'
}

fn is_dot_component_exec(c: &Vec<char>) -> (r: bool)
    ensures
        r == is_dot_component(c@),
{
    if c.len() == 1 {
        let r = c[0] == '.';
        assert(r ==> c@ =~= seq!['.']);
        r
    } else if c.len() == 2 {
        let r = c[0] == '.' && c[1] == '.';
        assert(r ==> c@ =~= seq!['.', '.']);
        r
    } else {
        false
    }
}

fn component_views(parts: &Vec<Vec<char>>) -> (ghost_views: Ghost<Seq<Seq<char>>>)
    ensures
        ghost_views@ == parts@.map_values(|p: Vec<char>| p@),
{
    Ghost(parts@.map_values(|p: Vec<char>| p@))
}

/// Accepts an absolute HTTP(S) URL that is safe to publish in configuration files.
pub fn validate_url(value: &str, https_only: bool) -> (r: Result<(), ApiError>)
    ensures
        r is Ok <==> url_ok(value@, https_only),
        url_rest(value@, https_only) is None ==> fails_with(
            r,
            bad_request_view("A valid HTTP URL is required (HTTPS for downloads)"@),
        ),
        url_rest(value@, https_only) is Some && !url_ok(value@, https_only) ==> fails_with(
            r,
            bad_request_view("Invalid public or download URL"@),
        ),
{
    let chars = chars_of(value);
    let rest = if starts_with_chars(&chars, "https://") {
        skip_chars(&chars, "https://".unicode_len())
    } else if !https_only && starts_with_chars(&chars, "http://") {
        skip_chars(&chars, "http://".unicode_len())
    } else {
        return Err(ApiError::bad_request("A valid HTTP URL is required (HTTPS for downloads)"));
    };
    assert(url_rest(value@, https_only) == Some(rest@));
    let parts = split_vec(&rest, '/');
    let Ghost(views) = component_views(&parts);
    proof {
        crate::text::lemma_split_nonempty(rest@, '/');
    }
    let authority = &parts[0];
    assert(authority@ == split(rest@, '/')[0]);
    let invalid_authority = authority.len() == 0 || authority[0] == '-';
    let mut invalid_character = false;
    let mut i: usize = 0;
    while i < chars.len()
        invariant
            i <= chars.len(),
            invalid_character == exists|j: int| 0 <= j < i && url_char_invalid(#[trigger] chars@[j]),
        decreases chars.len() - i,
    {
        if url_char_invalid_exec(chars[i]) {
            invalid_character = true;
        }
        i = i + 1;
    }
    let mut traversal = false;
    let mut k: usize = 0;
    while k < parts.len()
        invariant
            k <= parts.len(),
            views == parts@.map_values(|p: Vec<char>| p@),
            views == split(rest@, '/'),
            traversal == exists|j: int| 0 <= j < k && is_dot_component(#[trigger] views[j]),
        decreases parts.len() - k,
    {
        assert(views[k as int] == parts@[k as int]@);
        if is_dot_component_exec(&parts[k]) {
            traversal = true;
        }
        k = k + 1;
    }
    if chars.len() > 2048 || invalid_authority || invalid_character || traversal {
        return Err(ApiError::bad_request("Invalid public or download URL"));
    }
    Ok(())
}

fn relative_char_invalid_exec(c: char) -> (r: bool)
    ensures
        r == relative_char_invalid(c),
{
    c <= '\u{1f}' || ('\u{7f}' <= c && c <= '\u{9f}') || c == '\\' || c == ':' || c == '%' || c
        == '"' || c == '\'' || c == '<' || c == '>' || c == '|' || c == '?' || c == '*' || c == '{'
        || c == '}'
}

fn relative_component_invalid_exec(c: &Vec<char>) -> (r: bool)
    ensures
        r == relative_component_invalid(c@),
{
    c.len() == 0 || c[0] == '.' || c[c.len() - 1] == '.' || c[c.len() - 1] == ' '
}

/// Accepts a relative path below a server directory; the empty path only when allowed.
pub fn validate_relative(value: &str, allow_empty: bool) -> (r: Result<(), ApiError>)
    ensures
        r is Ok <==> relative_ok(value@, allow_empty),
        !relative_ok(value@, allow_empty) ==> fails_with(
            r,
            bad_request_view("Game directory must be a relative path inside the game server"@),
        ),
{
    let chars = chars_of(value);
    if allow_empty && chars.len() == 0 {
        return Ok(());
    }
    let parts = split_vec(&chars, '/');
    let Ghost(views) = component_views(&parts);
    let mut invalid_component = false;
    let mut k: usize = 0;
    while k < parts.len()
        invariant
            k <= parts.len(),
            views == parts@.map_values(|p: Vec<char>| p@),
            views == split(value@, '/'),
            chars@ == value@,
            invalid_component == exists|j: int|
                0 <= j < k && relative_component_invalid(#[trigger] views[j]),
        decreases parts.len() - k,
    {
        assert(views[k as int] == parts@[k as int]@);
        if relative_component_invalid_exec(&parts[k]) {
            invalid_component = true;
        }
        k = k + 1;
    }
    let mut invalid_character = false;
    let mut i: usize = 0;
    while i < chars.len()
        invariant
            i <= chars.len(),
            chars@ == value@,
            invalid_character == exists|j: int|
                0 <= j < i && relative_char_invalid(#[trigger] chars@[j]),
        decreases chars.len() - i,
    {
        if relative_char_invalid_exec(chars[i]) {
            invalid_character = true;
        }
        i = i + 1;
    }
    if chars.len() == 0 || utf8_len_exceeds(&chars, 512) || invalid_component || invalid_character {
        return Err(
            ApiError::bad_request("Game directory must be a relative path inside the game server"),
        );
    }
    assert(!invalid_component);
    assert(forall|k: int|
        0 <= k < split(value@, '/').len() ==> !relative_component_invalid(
            #[trigger] split(value@, '/')[k],
        ));
    Ok(())
}

} // verus!
