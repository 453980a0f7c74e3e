use fastdl::shell::{quote, quote_windows, shell_join, shell_join_windows};

#[test]
fn safe_tokens_pass_through() {
    assert_eq!(
        shell_join(&["get-tool", "https://example.com/install.sh"]),
        "get-tool https://example.com/install.sh"
    );
    assert_eq!(
        shell_join(&["serve", "--config=/srv/gameap/.plugins/fastdla/config.json"]),
        "serve --config=/srv/gameap/.plugins/fastdla/config.json"
    );
}

#[test]
fn spaces_are_quoted() {
    assert_eq!(
        shell_join(&["--data-dir=/srv/game ap"]),
        "'--data-dir=/srv/game ap'"
    );
}

#[test]
fn embedded_quote_is_escaped() {
    assert_eq!(quote("a'b"), "'a'\\''b'");
}

#[test]
fn empty_token_is_quoted() {
    assert_eq!(quote(""), "''");
}

#[test]
fn windows_bare_backslash_path_passes_through() {
    assert_eq!(
        shell_join_windows(&[r"C:\gameap\.plugins\fastdla\gameap-fastdl.exe", "version"]),
        r"C:\gameap\.plugins\fastdla\gameap-fastdl.exe version"
    );
}

#[test]
fn windows_spaces_use_double_quotes() {
    assert_eq!(
        shell_join_windows(&["-DataDir", r"C:\Program Files\gameap"]),
        r#"-DataDir "C:\Program Files\gameap""#
    );
}

#[test]
fn windows_placeholder_token_is_double_quoted() {
    assert_eq!(quote_windows("{node_work_path}"), r#""{node_work_path}""#);
    assert_eq!(
        quote_windows("{node_tools_path}/install-fastdl-windows.ps1"),
        r#""{node_tools_path}/install-fastdl-windows.ps1""#
    );
}

#[test]
fn windows_embedded_double_quote() {
    assert_eq!(quote_windows(r#"a"b"#), r#""a"'"'"b""#);
}

#[test]
fn windows_empty_token() {
    assert_eq!(quote_windows(""), r#""""#);
}

/// A small reimplementation of the daemon's splitting, to check the quoting on
/// concrete values: single quotes, double quotes and backslash escapes.
fn split_like_daemon(input: &str) -> Option<Vec<String>> {
    let mut words = Vec::new();
    let mut cur = String::new();
    let mut in_word = false;
    let mut chars = input.chars().peekable();
    while let Some(c) = chars.next() {
        match c {
            ' ' | '\t' | '\n' => {
                if in_word {
                    words.push(std::mem::take(&mut cur));
                    in_word = false;
                }
            }
            '\\' => {
                let next = chars.next()?;
                if next != '\n' {
                    cur.push(next);
                    in_word = true;
                }
            }
            '\'' => {
                in_word = true;
                loop {
                    let q = chars.next()?;
                    if q == '\'' {
                        break;
                    }
                    cur.push(q);
                }
            }
            '"' => {
                in_word = true;
                loop {
                    let q = chars.next()?;
                    if q == '"' {
                        break;
                    }
                    if q == '\\' {
                        let e = chars.next()?;
                        if matches!(e, '$' | '`' | '"' | '\\') {
                            cur.push(e);
                        } else if e != '\n' {
                            cur.push('\\');
                            cur.push(e);
                        }
                    } else {
                        cur.push(q);
                    }
                }
            }
            other => {
                cur.push(other);
                in_word = true;
            }
        }
    }
    if in_word {
        words.push(cur);
    }
    Some(words)
}

#[test]
fn joined_arguments_split_back_into_the_same_arguments() {
    let args = ["", "plain", "with space", "it's", "a\"b", "tab\there", "back\\slash", "$HOME"];
    let joined = shell_join(&args);
    assert_eq!(split_like_daemon(&joined).unwrap(), args.to_vec());
}

#[test]
fn windows_joined_arguments_split_back_after_backslash_doubling() {
    let args = [r"C:\GameAP Data\x.exe", r"C:\plain\path", "a\"b", "", "it's"];
    let joined = shell_join_windows(&args).replace('\\', "\\\\");
    assert_eq!(split_like_daemon(&joined).unwrap(), args.to_vec());
}
