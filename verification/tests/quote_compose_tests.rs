use echidna_lib::compose::{compose_scripts, parent_of};
use echidna_lib::config::{Config, GroupBy, TerminalApp};
use echidna_lib::quote::bash_quote;

/// A small POSIX-shell field splitter: single quotes are literal spans,
/// a backslash escapes the next character, whitespace separates words and
/// `;` is a word of its own. Returns None on an unterminated quote.
fn sh_split(script: &str) -> Option<Vec<String>> {
    let mut words: Vec<String> = Vec::new();
    let mut cur = String::new();
    let mut has = false;
    let mut in_sq = false;
    let mut it = script.chars();
    while let Some(c) = it.next() {
        if in_sq {
            if c == '\'' {
                in_sq = false;
            } else {
                cur.push(c);
            }
        } else {
            match c {
                '\'' => {
                    in_sq = true;
                    has = true;
                }
                '\\' => {
                    cur.push(it.next()?);
                    has = true;
                }
                ' ' | '\t' | '\n' => {
                    if has {
                        words.push(std::mem::take(&mut cur));
                        has = false;
                    }
                }
                ';' => {
                    if has {
                        words.push(std::mem::take(&mut cur));
                        has = false;
                    }
                    words.push(";".to_string());
                }
                _ => {
                    cur.push(c);
                    has = true;
                }
            }
        }
    }
    if in_sq {
        return None;
    }
    if has {
        words.push(cur);
    }
    Some(words)
}

#[test]
fn quote_plain_path() {
    assert_eq!(bash_quote("/tmp/a.txt"), "'/tmp/a.txt'");
}

#[test]
fn quote_single_quote() {
    assert_eq!(bash_quote("a b's.txt"), "'a b'\\''s.txt'");
}

#[test]
fn quote_empty() {
    assert_eq!(bash_quote(""), "''");
}

#[test]
fn quote_non_ascii() {
    let s = "/tmp/ünïcødé → file.txt";
    let q = bash_quote(s);
    let words = sh_split(&q).unwrap();
    assert_eq!(words, vec![s.to_string()]);
}

#[test]
fn quoting_round_trip_shell_interpretation() {
    // The composed script, read by a POSIX shell, resolves to exactly the
    // literal path as one argument.
    let config = Config::new(
        "cat".to_string(),
        GroupBy::All,
        TerminalApp::Supported("Terminal.app".to_string()),
    );
    let paths = vec!["/tmp/a b's.txt".to_string()];
    let scripts = compose_scripts(&config, &paths);
    assert_eq!(scripts.len(), 1);
    assert_eq!(scripts[0], "cd '/tmp'; cat '/tmp/a b'\\''s.txt'");
    let words = sh_split(&scripts[0]).unwrap();
    assert_eq!(
        words,
        vec![
            "cd".to_string(),
            "/tmp".to_string(),
            ";".to_string(),
            "cat".to_string(),
            "/tmp/a b's.txt".to_string(),
        ]
    );
}

#[test]
fn grouping_arithmetic() {
    // command "cat" and two paths: All yields exactly one script holding
    // both paths; PerFile yields exactly two, each holding exactly one.
    let paths = vec!["/tmp/a.txt".to_string(), "/tmp/b.txt".to_string()];

    let all = Config::new(
        "cat".to_string(),
        GroupBy::All,
        TerminalApp::Supported("Terminal.app".to_string()),
    );
    let scripts = compose_scripts(&all, &paths);
    assert_eq!(scripts.len(), 1);
    assert!(scripts[0].contains("'/tmp/a.txt'"));
    assert!(scripts[0].contains("'/tmp/b.txt'"));

    let none = Config::new(
        "cat".to_string(),
        GroupBy::PerFile,
        TerminalApp::Supported("Terminal.app".to_string()),
    );
    let scripts = compose_scripts(&none, &paths);
    assert_eq!(scripts.len(), 2);
    assert_eq!(scripts[0], "cd '/tmp'; cat '/tmp/a.txt'");
    assert_eq!(scripts[1], "cd '/tmp'; cat '/tmp/b.txt'");
    assert!(!scripts[0].contains("b.txt"));
    assert!(!scripts[1].contains("a.txt"));
}

#[test]
fn compose_scenario_two_documents() {
    let config = Config::new(
        "open".to_string(),
        GroupBy::All,
        TerminalApp::Supported("Terminal.app".to_string()),
    );
    let paths = vec![
        "/Users/x/doc1.txt".to_string(),
        "/Users/x/doc2.txt".to_string(),
    ];
    let scripts = compose_scripts(&config, &paths);
    assert_eq!(scripts.len(), 1);
    assert_eq!(
        scripts[0],
        "cd '/Users/x'; open '/Users/x/doc1.txt' '/Users/x/doc2.txt'"
    );
}

#[test]
fn parent_of_cases() {
    assert_eq!(parent_of("/Users/x/doc1.txt"), Some("/Users/x".to_string()));
    assert_eq!(parent_of("/a"), Some("/".to_string()));
    assert_eq!(parent_of("a.txt"), Some("".to_string()));
    assert_eq!(parent_of("/"), None);
    assert_eq!(parent_of(""), None);
}

#[test]
fn per_file_scripts_share_first_paths_prefix() {
    let config = Config::new(
        "cat".to_string(),
        GroupBy::PerFile,
        TerminalApp::Supported("Terminal.app".to_string()),
    );
    let paths = vec!["/d1/a.txt".to_string(), "/d2/b.txt".to_string()];
    let scripts = compose_scripts(&config, &paths);
    assert_eq!(scripts[0], "cd '/d1'; cat '/d1/a.txt'");
    // The prefix always comes from the batch's first path.
    assert_eq!(scripts[1], "cd '/d1'; cat '/d2/b.txt'");
}
