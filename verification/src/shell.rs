//! Command quoting for `nodecmd` and daemon tasks.
//!
//! The daemon splits commands into arguments without invoking a shell. Each
//! quoted value must survive `shellquote.Split` as exactly one argument.
//!
//! On Windows the daemon doubles backslashes before splitting. Double quotes
//! preserve the original path; single quotes would retain doubled backslashes.
use vstd::prelude::*;

use crate::text::{chars_of, push_char};

verus! {

/// Characters that never need quoting.
pub open spec fn safe_char(c: char) -> bool {
    ||| ('a' <= c && c <= 'z')
    ||| ('A' <= c && c <= 'Z')
    ||| ('0' <= c && c <= '9')
    ||| c == '_' || c == '@' || c == '%' || c == '+' || c == '='
    ||| c == ':' || c == ',' || c == '.' || c == '/' || c == '-'
}

pub open spec fn safe_windows_char(c: char) -> bool {
    safe_char(c) || c == '\\'
}

pub open spec fn is_safe(s: Seq<char>) -> bool {
    s.len() > 0 && forall|i: int| 0 <= i < s.len() ==> safe_char(#[trigger] s[i])
}

pub open spec fn is_safe_windows(s: Seq<char>) -> bool {
    s.len() > 0 && forall|i: int| 0 <= i < s.len() ==> safe_windows_char(#[trigger] s[i])
}

/// A single quote written inside a single-quoted token: close, escaped quote, reopen.
pub open spec fn escaped_single_quote() -> Seq<char> {
    seq!['\'', '\\', '\'', '\'']
}

/// A double quote written inside a double-quoted token: close, single-quoted `"`, reopen.
pub open spec fn escaped_double_quote() -> Seq<char> {
    seq!['"', '\'', '"', '\'', '"']
}

/// Body of a single-quoted token.
pub open spec fn single_quoted_body(s: Seq<char>) -> Seq<char>
    decreases s.len(),
{
    if s.len() == 0 {
        Seq::empty()
    } else {
        single_quoted_body(s.drop_last()) + (if s.last() == '\'' {
            escaped_single_quote()
        } else {
            seq![s.last()]
        })
    }
}

/// Body of a double-quoted token.
pub open spec fn double_quoted_body(s: Seq<char>) -> Seq<char>
    decreases s.len(),
{
    if s.len() == 0 {
        Seq::empty()
    } else {
        double_quoted_body(s.drop_last()) + (if s.last() == '"' {
            escaped_double_quote()
        } else {
            seq![s.last()]
        })
    }
}

/// One argument as written on a command line split by go-shellquote.
pub open spec fn quoted(s: Seq<char>) -> Seq<char> {
    if is_safe(s) {
        s
    } else {
        seq!['\''] + single_quoted_body(s) + seq!['\'']
    }
}

/// One argument as written for a Windows daemon, which doubles backslashes before splitting.
pub open spec fn quoted_windows(s: Seq<char>) -> Seq<char> {
    if is_safe_windows(s) {
        s
    } else {
        seq!['"'] + double_quoted_body(s) + seq!['"']
    }
}

/// Words joined by single spaces.
pub open spec fn join_words(words: Seq<Seq<char>>) -> Seq<char>
    decreases words.len(),
{
    if words.len() == 0 {
        Seq::empty()
    } else if words.len() == 1 {
        words[0]
    } else {
        join_words(words.drop_last()) + seq![' '] + words.last()
    }
}

pub open spec fn views(args: Seq<&str>) -> Seq<Seq<char>> {
    args.map_values(|a: &str| a@)
}

/// The command line for the arguments: each quoted, separated by spaces.
pub open spec fn spec_shell_join(args: Seq<Seq<char>>) -> Seq<char> {
    join_words(args.map_values(|a: Seq<char>| quoted(a)))
}

pub open spec fn spec_shell_join_windows(args: Seq<Seq<char>>) -> Seq<char> {
    join_words(args.map_values(|a: Seq<char>| quoted_windows(a)))
}

fn is_safe_byte(c: char) -> (r: bool)
    ensures
        r == safe_char(c),
{
    ('a' <= c && c <= 'z') || ('A' <= c && c <= 'Z') || ('0' <= c && c <= '9') || c == '_'
        || c == '@' || c == '%' || c == '+' || c == '=' || c == ':' || c == ',' || c == '.'
        || c == '/' || c == '-'
}

fn is_safe_chars(value: &Vec<char>, windows: bool) -> (r: bool)
    ensures
        r == (if windows { is_safe_windows(value@) } else { is_safe(value@) }),
{
    if value.len() == 0 {
        return false;
    }
    let mut i: usize = 0;
    while i < value.len()
        invariant
            i <= value.len(),
            forall|j: int|
                0 <= j < i ==> (if windows {
                    safe_windows_char(#[trigger] value@[j])
                } else {
                    safe_char(value@[j])
                }),
        decreases value.len() - i,
    {
        let c = value[i];
        if !(is_safe_byte(c) || (windows && c == '\\')) {
            return false;
        }
        i = i + 1;
    }
    true
}

/// True when `value` passes through unquoted.
pub fn is_safe_str(value: &str) -> (r: bool)
    ensures
        r == is_safe(value@),
{
    is_safe_chars(&chars_of(value), false)
}

/// True when `value` passes through unquoted on Windows.
pub fn is_safe_windows_str(value: &str) -> (r: bool)
    ensures
        r == is_safe_windows(value@),
{
    is_safe_chars(&chars_of(value), true)
}

/// Quotes one argument for go-shellquote.
pub fn quote(value: &str) -> (r: String)
    ensures
        r@ == quoted(value@),
{
    let chars = chars_of(value);
    let mut quoted = String::new();
    if is_safe_chars(&chars, false) {
        crate::text::push_all(&mut quoted, &chars);
        return quoted;
    }
    push_char(&mut quoted, '\'');
    let mut i: usize = 0;
    while i < chars.len()
        invariant
            i <= chars.len(),
            quoted@ == seq!['\''] + single_quoted_body(chars@.subrange(0, i as int)),
        decreases chars.len() - i,
    {
        let c = chars[i];
        if c == '\'' {
            push_char(&mut quoted, '\'');
            push_char(&mut quoted, '\\');
            push_char(&mut quoted, '\'');
            push_char(&mut quoted, '\'');
        } else {
            push_char(&mut quoted, c);
        }
        i = i + 1;
        assert(chars@.subrange(0, i as int).drop_last() == chars@.subrange(0, i - 1));
    }
    assert(chars@.subrange(0, chars@.len() as int) == chars@);
    push_char(&mut quoted, '\'');
    quoted
}

/// Quotes one argument for a Windows daemon.
pub fn quote_windows(value: &str) -> (r: String)
    ensures
        r@ == quoted_windows(value@),
{
    let chars = chars_of(value);
    let mut quoted = String::new();
    if is_safe_chars(&chars, true) {
        crate::text::push_all(&mut quoted, &chars);
        return quoted;
    }
    push_char(&mut quoted, '"');
    let mut i: usize = 0;
    while i < chars.len()
        invariant
            i <= chars.len(),
            quoted@ == seq!['"'] + double_quoted_body(chars@.subrange(0, i as int)),
        decreases chars.len() - i,
    {
        let c = chars[i];
        if c == '"' {
            push_char(&mut quoted, '"');
            push_char(&mut quoted, '\'');
            push_char(&mut quoted, '"');
            push_char(&mut quoted, '\'');
            push_char(&mut quoted, '"');
        } else {
            push_char(&mut quoted, c);
        }
        i = i + 1;
        assert(chars@.subrange(0, i as int).drop_last() == chars@.subrange(0, i - 1));
    }
    assert(chars@.subrange(0, chars@.len() as int) == chars@);
    push_char(&mut quoted, '"');
    quoted
}

fn join_with(args: &[&str], windows: bool) -> (r: String)
    ensures
        r@ == (if windows {
            spec_shell_join_windows(views(args@))
        } else {
            spec_shell_join(views(args@))
        }),
{
    let ghost words = if windows {
        views(args@).map_values(|a: Seq<char>| quoted_windows(a))
    } else {
        views(args@).map_values(|a: Seq<char>| quoted(a))
    };
    let mut joined = String::new();
    let mut i: usize = 0;
    while i < args.len()
        invariant
            i <= args.len(),
            words.len() == args@.len(),
            forall|j: int|
                0 <= j < args@.len() ==> #[trigger] words[j] == (if windows {
                    quoted_windows(args@[j]@)
                } else {
                    quoted(args@[j]@)
                }),
            joined@ == join_words(words.subrange(0, i as int)),
        decreases args.len() - i,
    {
        let token = if windows {
            quote_windows(args[i])
        } else {
            quote(args[i])
        };
        if i > 0 {
            push_char(&mut joined, ' ');
        }
        let token_chars = chars_of(token.as_str());
        crate::text::push_all(&mut joined, &token_chars);
        i = i + 1;
        assert(words.subrange(0, i as int).drop_last() == words.subrange(0, i - 1));
    }
    assert(words.subrange(0, args@.len() as int) == words);
    joined
}

/// Joins arguments into a single command string, single-quoting any token that
/// is empty or contains characters outside a conservative safe set. Compatible
/// with `github.com/kballard/go-shellquote`'s `Split`.
pub fn shell_join(args: &[&str]) -> (r: String)
    ensures
        r@ == spec_shell_join(views(args@)),
{
    join_with(args, false)
}

/// [`shell_join`] for commands a Windows daemon splits (see the module docs).
pub fn shell_join_windows(args: &[&str]) -> (r: String)
    ensures
        r@ == spec_shell_join_windows(views(args@)),
{
    join_with(args, true)
}

} // verus!
