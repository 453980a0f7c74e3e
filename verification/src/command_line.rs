//! How a daemon splits a command line into arguments, and why the quoting in
//! [`crate::shell`] survives it.
//!
//! The daemon splits a command the way go-shellquote's `Split` does: spaces,
//! tabs and newlines separate words; single quotes take everything literally;
//! double quotes take everything but `\` before one of ``$ ` " \`` and newline;
//! outside quotes a backslash takes the next character literally. A Windows
//! daemon first doubles every backslash.
use vstd::prelude::*;

use crate::shell::{
    double_quoted_body, escaped_double_quote, escaped_single_quote, is_safe, is_safe_windows,
    join_words, quoted, quoted_windows, safe_char, safe_windows_char, single_quoted_body,
    spec_shell_join, spec_shell_join_windows,
};

verus! {

/// Where the splitter is within the command line.
pub enum SplitMode {
    /// Between words.
    Between,
    /// After a backslash between words.
    BetweenEscape,
    /// Inside an unquoted part of a word.
    Word,
    /// After a backslash inside a word.
    Escape,
    /// Inside single quotes.
    Single,
    /// Inside double quotes.
    Double,
    /// After a backslash inside double quotes.
    DoubleEscape,
}

/// The words split off so far, the word being read, and the position.
#[verifier::ext_equal]
pub struct SplitState {
    pub words: Seq<Seq<char>>,
    pub cur: Seq<char>,
    pub mode: SplitMode,
}

pub open spec fn separator(c: char) -> bool {
    c == ' ' || c == '\n' || c == '\t'
}

/// Characters a backslash escapes inside double quotes.
pub open spec fn double_escapable(c: char) -> bool {
    c == '$' || c == '`' || c == '"' || c == '\n' || c == '\\'
}

pub open spec fn at(words: Seq<Seq<char>>, cur: Seq<char>, mode: SplitMode) -> SplitState {
    SplitState { words, cur, mode }
}

/// The splitter after reading one more character.
pub open spec fn split_step(st: SplitState, c: char) -> SplitState {
    let w = st.words;
    let cur = st.cur;
    match st.mode {
        SplitMode::Between => if separator(c) {
            st
        } else if c == '\\' {
            at(w, cur, SplitMode::BetweenEscape)
        } else if c == '\'' {
            at(w, Seq::empty(), SplitMode::Single)
        } else if c == '"' {
            at(w, Seq::empty(), SplitMode::Double)
        } else {
            at(w, seq![c], SplitMode::Word)
        },
        SplitMode::BetweenEscape => if c == '\n' {
            at(w, cur, SplitMode::Between)
        } else {
            at(w, seq![c], SplitMode::Word)
        },
        SplitMode::Word => if separator(c) {
            at(w.push(cur), Seq::empty(), SplitMode::Between)
        } else if c == '\\' {
            at(w, cur, SplitMode::Escape)
        } else if c == '\'' {
            at(w, cur, SplitMode::Single)
        } else if c == '"' {
            at(w, cur, SplitMode::Double)
        } else {
            at(w, cur.push(c), SplitMode::Word)
        },
        SplitMode::Escape => if c == '\n' {
            at(w, cur, SplitMode::Word)
        } else {
            at(w, cur.push(c), SplitMode::Word)
        },
        SplitMode::Single => if c == '\'' {
            at(w, cur, SplitMode::Word)
        } else {
            at(w, cur.push(c), SplitMode::Single)
        },
        SplitMode::Double => if c == '"' {
            at(w, cur, SplitMode::Word)
        } else if c == '\\' {
            at(w, cur, SplitMode::DoubleEscape)
        } else {
            at(w, cur.push(c), SplitMode::Double)
        },
        SplitMode::DoubleEscape => if c == '\n' {
            at(w, cur, SplitMode::Double)
        } else if double_escapable(c) {
            at(w, cur.push(c), SplitMode::Double)
        } else {
            at(w, cur.push('\\').push(c), SplitMode::Double)
        },
    }
}

/// The splitter after reading `s`.
pub open spec fn run_split(st: SplitState, s: Seq<char>) -> SplitState
    decreases s.len(),
{
    if s.len() == 0 {
        st
    } else {
        split_step(run_split(st, s.drop_last()), s.last())
    }
}

/// The words of a completely read command line; an open quote or a trailing
/// backslash makes the line invalid.
pub open spec fn split_finish(st: SplitState) -> Option<Seq<Seq<char>>> {
    match st.mode {
        SplitMode::Between => Some(st.words),
        SplitMode::Word => Some(st.words.push(st.cur)),
        _ => None,
    }
}

pub open spec fn between(words: Seq<Seq<char>>) -> SplitState {
    at(words, Seq::empty(), SplitMode::Between)
}

/// The arguments a daemon reads from a command line.
pub open spec fn split_command(s: Seq<char>) -> Option<Seq<Seq<char>>> {
    split_finish(run_split(between(Seq::empty()), s))
}

/// A Windows daemon's preprocessing: every backslash doubled.
pub open spec fn doubled_backslashes(s: Seq<char>) -> Seq<char>
    decreases s.len(),
{
    if s.len() == 0 {
        Seq::empty()
    } else {
        doubled_backslashes(s.drop_last()) + (if s.last() == '\\' {
            seq!['\\', '\\']
        } else {
            seq![s.last()]
        })
    }
}

/// The arguments a Windows daemon reads from a command line.
pub open spec fn split_windows_command(s: Seq<char>) -> Option<Seq<Seq<char>>> {
    split_command(doubled_backslashes(s))
}

proof fn lemma_run_concat(st: SplitState, a: Seq<char>, b: Seq<char>)
    ensures
        run_split(st, a + b) == run_split(run_split(st, a), b),
    decreases b.len(),
{
    if b.len() == 0 {
        assert(a + b =~= a);
    } else {
        assert((a + b).drop_last() =~= a + b.drop_last());
        assert((a + b).last() == b.last());
        lemma_run_concat(st, a, b.drop_last());
    }
}

proof fn lemma_doubled_concat(a: Seq<char>, b: Seq<char>)
    ensures
        doubled_backslashes(a + b) == doubled_backslashes(a) + doubled_backslashes(b),
    decreases b.len(),
{
    if b.len() == 0 {
        assert(a + b =~= a);
        assert(doubled_backslashes(a) + doubled_backslashes(b) =~= doubled_backslashes(a));
    } else {
        assert((a + b).drop_last() =~= a + b.drop_last());
        assert((a + b).last() == b.last());
        lemma_doubled_concat(a, b.drop_last());
        let piece = if b.last() == '\\' {
            seq!['\\', '\\']
        } else {
            seq![b.last()]
        };
        assert(doubled_backslashes(a) + doubled_backslashes(b.drop_last()) + piece
            =~= doubled_backslashes(a) + (doubled_backslashes(b.drop_last()) + piece));
    }
}

/// Reading a short piece one character at a time.
proof fn lemma_run_one(st: SplitState, c: char)
    ensures
        run_split(st, seq![c]) == split_step(st, c),
{
    assert(seq![c].drop_last() =~= Seq::<char>::empty());
    assert(run_split(st, Seq::<char>::empty()) == st);
}

proof fn lemma_doubled_one(c: char)
    ensures
        doubled_backslashes(seq![c]) == (if c == '\\' {
            seq!['\\', '\\']
        } else {
            seq![c]
        }),
{
    assert(seq![c].drop_last() =~= Seq::<char>::empty());
    assert(doubled_backslashes(Seq::<char>::empty()) == Seq::<char>::empty());
    assert(seq![c].last() == c);
    if c == '\\' {
        assert(Seq::<char>::empty() + seq!['\\', '\\'] =~= seq!['\\', '\\']);
    } else {
        assert(Seq::<char>::empty() + seq![c] =~= seq![c]);
    }
}

proof fn lemma_run_push(st: SplitState, s: Seq<char>, c: char)
    ensures
        run_split(st, s.push(c)) == split_step(run_split(st, s), c),
{
    assert(s.push(c).drop_last() =~= s);
}

/// A safe word is read as itself.
proof fn lemma_safe_word(w: Seq<Seq<char>>, a: Seq<char>)
    requires
        is_safe(a),
    ensures
        run_split(between(w), a) == at(w, a, SplitMode::Word),
    decreases a.len(),
{
    let prefix = a.drop_last();
    assert(a =~= prefix.push(a.last()));
    assert(safe_char(a[a.len() - 1]));
    if prefix.len() == 0 {
        assert(a =~= seq![a.last()]);
        lemma_run_one(between(w), a.last());
    } else {
        assert forall|i: int| 0 <= i < prefix.len() implies safe_char(#[trigger] prefix[i]) by {
            assert(prefix[i] == a[i]);
        }
        lemma_safe_word(w, prefix);
        lemma_run_push(between(w), prefix, a.last());
        assert(prefix.push(a.last()) =~= a);
    }
}

/// A single-quoted body is read literally.
proof fn lemma_single_body(w: Seq<Seq<char>>, c: Seq<char>, a: Seq<char>)
    ensures
        run_split(at(w, c, SplitMode::Single), single_quoted_body(a)) == at(
            w,
            c + a,
            SplitMode::Single,
        ),
    decreases a.len(),
{
    if a.len() == 0 {
        assert(c + a =~= c);
    } else {
        let prefix = a.drop_last();
        let x = a.last();
        lemma_single_body(w, c, prefix);
        let piece = if x == '\'' {
            escaped_single_quote()
        } else {
            seq![x]
        };
        lemma_run_concat(at(w, c, SplitMode::Single), single_quoted_body(prefix), piece);
        let mid = at(w, c + prefix, SplitMode::Single);
        if x == '\'' {
            let e = escaped_single_quote();
            assert(e =~= seq!['\''].push('\\').push('\'').push('\''));
            lemma_run_push(mid, seq!['\''].push('\\').push('\''), '\'');
            lemma_run_push(mid, seq!['\''].push('\\'), '\'');
            lemma_run_push(mid, seq!['\''], '\\');
            lemma_run_one(mid, '\'');
        } else {
            lemma_run_one(mid, x);
        }
        assert((c + prefix).push(x) =~= c + a);
    }
}

/// Any argument, quoted, is read back as one word.
proof fn lemma_quoted(w: Seq<Seq<char>>, a: Seq<char>)
    ensures
        run_split(between(w), quoted(a)) == at(w, a, SplitMode::Word),
{
    if is_safe(a) {
        lemma_safe_word(w, a);
    } else {
        let body = single_quoted_body(a);
        lemma_run_concat(between(w), seq!['\''] + body, seq!['\'']);
        lemma_run_concat(between(w), seq!['\''], body);
        lemma_run_one(between(w), '\'');
        lemma_single_body(w, Seq::empty(), a);
        assert(Seq::<char>::empty() + a =~= a);
        lemma_run_one(at(w, a, SplitMode::Single), '\'');
    }
}

proof fn lemma_join_step(words: Seq<Seq<char>>)
    requires
        words.len() >= 2,
    ensures
        join_words(words) == join_words(words.drop_last()) + seq![' '] + words.last(),
{
}

/// Reading the joined quoted arguments leaves all but the last as words and
/// the last being read.
proof fn lemma_join(args: Seq<Seq<char>>)
    requires
        args.len() > 0,
    ensures
        run_split(between(Seq::empty()), join_words(args.map_values(|a: Seq<char>| quoted(a))))
            == at(args.drop_last(), args.last(), SplitMode::Word),
    decreases args.len(),
{
    let words = args.map_values(|a: Seq<char>| quoted(a));
    if args.len() == 1 {
        assert(words[0] == quoted(args[0]));
        lemma_quoted(Seq::empty(), args[0]);
        assert(args.drop_last() =~= Seq::<Seq<char>>::empty());
    } else {
        let prefix = args.drop_last();
        lemma_join(prefix);
        assert(words.drop_last() =~= prefix.map_values(|a: Seq<char>| quoted(a)));
        assert(words.last() == quoted(args.last()));
        lemma_join_step(words);
        let head = join_words(words.drop_last());
        lemma_run_concat(between(Seq::empty()), head + seq![' '], quoted(args.last()));
        lemma_run_concat(between(Seq::empty()), head, seq![' ']);
        lemma_run_one(at(prefix.drop_last(), prefix.last(), SplitMode::Word), ' ');
        assert(prefix.drop_last().push(prefix.last()) =~= prefix);
        lemma_quoted(prefix, args.last());
    }
}

/// The daemon reads a joined command back as exactly the arguments that were
/// joined, whatever characters they hold.
pub proof fn shell_join_round_trip(args: Seq<Seq<char>>)
    ensures
        split_command(spec_shell_join(args)) == Some(args),
{
    if args.len() == 0 {
        assert(args.map_values(|a: Seq<char>| quoted(a)) =~= Seq::<Seq<char>>::empty());
        assert(spec_shell_join(args) == Seq::<char>::empty());
        assert(args =~= Seq::<Seq<char>>::empty());
    } else {
        lemma_join(args);
        assert(args.drop_last().push(args.last()) =~= args);
    }
}

/// A safe Windows word, backslashes doubled, is read as itself.
proof fn lemma_safe_windows_word(w: Seq<Seq<char>>, a: Seq<char>)
    requires
        is_safe_windows(a),
    ensures
        run_split(between(w), doubled_backslashes(a)) == at(w, a, SplitMode::Word),
    decreases a.len(),
{
    let prefix = a.drop_last();
    let x = a.last();
    assert(safe_windows_char(a[a.len() - 1]));
    let piece = if x == '\\' {
        seq!['\\', '\\']
    } else {
        seq![x]
    };
    assert(doubled_backslashes(a) == doubled_backslashes(prefix) + piece);
    lemma_run_concat(between(w), doubled_backslashes(prefix), piece);
    if prefix.len() == 0 {
        assert(doubled_backslashes(prefix) =~= Seq::<char>::empty());
        assert(a =~= seq![x]);
        if x == '\\' {
            assert(piece =~= seq!['\\'].push('\\'));
            lemma_run_push(between(w), seq!['\\'], '\\');
            lemma_run_one(between(w), '\\');
        } else {
            lemma_run_one(between(w), x);
        }
    } else {
        assert forall|i: int| 0 <= i < prefix.len() implies safe_windows_char(
            #[trigger] prefix[i],
        ) by {
            assert(prefix[i] == a[i]);
        }
        lemma_safe_windows_word(w, prefix);
        let mid = at(w, prefix, SplitMode::Word);
        if x == '\\' {
            assert(piece =~= seq!['\\'].push('\\'));
            lemma_run_push(mid, seq!['\\'], '\\');
            lemma_run_one(mid, '\\');
        } else {
            lemma_run_one(mid, x);
        }
        assert(prefix.push(x) =~= a);
    }
}

/// A double-quoted body, backslashes doubled, is read literally.
proof fn lemma_double_body(w: Seq<Seq<char>>, c: Seq<char>, a: Seq<char>)
    ensures
        run_split(at(w, c, SplitMode::Double), doubled_backslashes(double_quoted_body(a))) == at(
            w,
            c + a,
            SplitMode::Double,
        ),
    decreases a.len(),
{
    if a.len() == 0 {
        assert(c + a =~= c);
        assert(doubled_backslashes(double_quoted_body(a)) =~= Seq::<char>::empty());
    } else {
        let prefix = a.drop_last();
        let x = a.last();
        lemma_double_body(w, c, prefix);
        let piece = if x == '"' {
            escaped_double_quote()
        } else {
            seq![x]
        };
        assert(double_quoted_body(a) == double_quoted_body(prefix) + piece);
        lemma_doubled_concat(double_quoted_body(prefix), piece);
        lemma_run_concat(
            at(w, c, SplitMode::Double),
            doubled_backslashes(double_quoted_body(prefix)),
            doubled_backslashes(piece),
        );
        let mid = at(w, c + prefix, SplitMode::Double);
        if x == '"' {
            let q4 = seq!['"'].push('\'').push('"').push('\'');
            assert(piece =~= q4.push('"'));
            assert(doubled_backslashes(piece) =~= piece) by {
                let q1 = seq!['"'];
                let q2 = q1.push('\'');
                let q3 = q2.push('"');
                assert(q2.drop_last() =~= q1);
                assert(q3.drop_last() =~= q2);
                assert(q4.drop_last() =~= q3);
                assert(q4.push('"').drop_last() =~= q4);
                lemma_doubled_one('"');
                assert(doubled_backslashes(q1) =~= q1);
                assert(doubled_backslashes(q2) =~= q2);
                assert(doubled_backslashes(q3) =~= q3);
                assert(doubled_backslashes(q4) =~= q4);
            }
            lemma_run_push(mid, q4, '"');
            lemma_run_push(mid, seq!['"'].push('\'').push('"'), '\'');
            lemma_run_push(mid, seq!['"'].push('\''), '"');
            lemma_run_push(mid, seq!['"'], '\'');
            lemma_run_one(mid, '"');
        } else if x == '\\' {
            lemma_doubled_one(x);
            assert(doubled_backslashes(piece) =~= seq!['\\'].push('\\'));
            lemma_run_push(mid, seq!['\\'], '\\');
            lemma_run_one(mid, '\\');
        } else {
            lemma_doubled_one(x);
            assert(doubled_backslashes(piece) =~= seq![x]);
            lemma_run_one(mid, x);
        }
        assert((c + prefix).push(x) =~= c + a);
    }
}

/// Any argument, quoted for Windows and with backslashes doubled, is read back as one word.
proof fn lemma_quoted_windows(w: Seq<Seq<char>>, a: Seq<char>)
    ensures
        run_split(between(w), doubled_backslashes(quoted_windows(a))) == at(w, a, SplitMode::Word),
{
    if is_safe_windows(a) {
        lemma_safe_windows_word(w, a);
    } else {
        let body = double_quoted_body(a);
        let q = seq!['"'];
        lemma_doubled_one('"');
        lemma_doubled_concat(q + body, q);
        lemma_doubled_concat(q, body);
        let db = doubled_backslashes(body);
        lemma_run_concat(between(w), q + db, q);
        lemma_run_concat(between(w), q, db);
        lemma_run_one(between(w), '"');
        lemma_double_body(w, Seq::empty(), a);
        assert(Seq::<char>::empty() + a =~= a);
        lemma_run_one(at(w, a, SplitMode::Double), '"');
    }
}

proof fn lemma_join_windows(args: Seq<Seq<char>>)
    requires
        args.len() > 0,
    ensures
        run_split(
            between(Seq::empty()),
            doubled_backslashes(join_words(args.map_values(|a: Seq<char>| quoted_windows(a)))),
        ) == at(args.drop_last(), args.last(), SplitMode::Word),
    decreases args.len(),
{
    let words = args.map_values(|a: Seq<char>| quoted_windows(a));
    if args.len() == 1 {
        assert(words[0] == quoted_windows(args[0]));
        lemma_quoted_windows(Seq::empty(), args[0]);
        assert(args.drop_last() =~= Seq::<Seq<char>>::empty());
    } else {
        let prefix = args.drop_last();
        lemma_join_windows(prefix);
        assert(words.drop_last() =~= prefix.map_values(|a: Seq<char>| quoted_windows(a)));
        assert(words.last() == quoted_windows(args.last()));
        lemma_join_step(words);
        let head = join_words(words.drop_last());
        let space = seq![' '];
        lemma_doubled_one(' ');
        lemma_doubled_concat(head + space, quoted_windows(args.last()));
        lemma_doubled_concat(head, space);
        let dh = doubled_backslashes(head);
        lemma_run_concat(between(Seq::empty()), dh + space, doubled_backslashes(
            quoted_windows(args.last()),
        ));
        lemma_run_concat(between(Seq::empty()), dh, space);
        lemma_run_one(at(prefix.drop_last(), prefix.last(), SplitMode::Word), ' ');
        assert(prefix.drop_last().push(prefix.last()) =~= prefix);
        lemma_quoted_windows(prefix, args.last());
    }
}

/// A Windows daemon reads a joined command back as exactly the arguments that
/// were joined, whatever characters they hold.
pub proof fn shell_join_windows_round_trip(args: Seq<Seq<char>>)
    ensures
        split_windows_command(spec_shell_join_windows(args)) == Some(args),
{
    if args.len() == 0 {
        assert(args.map_values(|a: Seq<char>| quoted_windows(a)) =~= Seq::<Seq<char>>::empty());
        assert(spec_shell_join_windows(args) == Seq::<char>::empty());
        assert(doubled_backslashes(Seq::<char>::empty()) == Seq::<char>::empty());
        assert(args =~= Seq::<Seq<char>>::empty());
    } else {
        lemma_join_windows(args);
        assert(args.drop_last().push(args.last()) =~= args);
    }
}

} // verus!
