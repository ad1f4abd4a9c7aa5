use echidna_lib::config::{Config, GroupBy, TerminalApp};
use echidna_lib::dispatch::{
    classify_term_error, decide_open_url, Dispatcher, FailureClass, UrlDecision,
};
use echidna_lib::term::{
    classify_run_result, default_terminal, is_supported, plan_run_in_new_window,
    supported_terminals, supported_terminals_string, GENERIC_JXA, ITERM_JXA, TERMINAL_APP_JXA,
};

fn generic_config(paths_policy: GroupBy) -> Config {
    Config::new(
        "cat".to_string(),
        paths_policy,
        TerminalApp::Generic("FooTerm".to_string()),
    )
}

#[test]
fn fatal_abort_dispatches_once() {
    // TerminalNotFound on the first of three paths: exactly one attempt.
    let config = generic_config(GroupBy::PerFile);
    let paths = vec![
        "/d/a.txt".to_string(),
        "/d/b.txt".to_string(),
        "/d/c.txt".to_string(),
    ];
    let mut d = Dispatcher::new(&config, &paths);
    let mut attempts = 0;
    let mut fatal = None;
    while let Some(_script) = d.next_script() {
        attempts += 1;
        let outcome = Err("Application can't be found".to_string());
        if let Some(f) = d.report_outcome(&outcome) {
            fatal = Some(f);
        }
    }
    assert_eq!(attempts, 1);
    assert!(matches!(fatal, Some(FailureClass::TerminalNotFound)));
}

#[test]
fn recoverable_failure_continues() {
    let config = generic_config(GroupBy::PerFile);
    let paths = vec!["/d/a.txt".to_string(), "/d/b.txt".to_string()];
    let mut d = Dispatcher::new(&config, &paths);
    let mut attempts = 0;
    while let Some(_script) = d.next_script() {
        attempts += 1;
        let outcome = Err("some other failure".to_string());
        assert!(d.report_outcome(&outcome).is_none());
    }
    assert_eq!(attempts, 2);
}

#[test]
fn grouped_batch_runs_once_regardless_of_result() {
    let config = generic_config(GroupBy::All);
    let paths = vec!["/d/a.txt".to_string(), "/d/b.txt".to_string()];
    let mut d = Dispatcher::new(&config, &paths);
    let mut attempts = 0;
    while let Some(_script) = d.next_script() {
        attempts += 1;
        d.report_outcome(&Err("anything".to_string()));
    }
    assert_eq!(attempts, 1);
}

#[test]
fn classify_failures() {
    let generic = TerminalApp::Generic("FooTerm".to_string());
    let supported = TerminalApp::Supported("Terminal.app".to_string());
    assert_eq!(
        classify_term_error(
            "execution error: osascript is not allowed to send keystrokes. (1002)",
            &generic
        ),
        FailureClass::AutomationPermissionDenied
    );
    assert_eq!(
        classify_term_error("Application can't be found. (-2700)", &generic),
        FailureClass::TerminalNotFound
    );
    // The missing-application text is fatal only for the generic driver.
    assert_eq!(
        classify_term_error("Application can't be found. (-2700)", &supported),
        FailureClass::Recoverable
    );
    assert_eq!(
        classify_term_error("syntax error", &generic),
        FailureClass::Recoverable
    );
}

#[test]
fn url_decisions() {
    match decide_open_url("file", Some("/tmp/a.txt".to_string()), "file:///tmp/a.txt") {
        UrlDecision::UsePath(p) => assert_eq!(p, "/tmp/a.txt"),
        UrlDecision::Report(_) => panic!("expected a path"),
    }
    match decide_open_url("https", None, "https://example.net/") {
        UrlDecision::Report(m) => assert_eq!(
            m,
            "Only 'file' schemes are supported, 'https://example.net/''s scheme is https"
        ),
        UrlDecision::UsePath(_) => panic!("expected a report"),
    }
    match decide_open_url("file", None, "file://host/x") {
        UrlDecision::Report(m) => assert_eq!(m, "'file://host/x' has no path"),
        UrlDecision::UsePath(_) => panic!("expected a report"),
    }
}

#[test]
fn filter_file_paths_splits_batches() {
    let urls = vec![
        url::Url::parse("file:///tmp/a.txt").unwrap(),
        url::Url::parse("https://example.net/").unwrap(),
        url::Url::parse("file:///tmp/b c.txt").unwrap(),
    ];
    let (paths, reports) = echidna_lib::dispatch::filter_file_paths(&urls);
    assert_eq!(paths, vec!["/tmp/a.txt".to_string(), "/tmp/b c.txt".to_string()]);
    assert_eq!(reports.len(), 1);
    assert!(reports[0].contains("https"));
}

#[test]
fn registry_order_and_membership() {
    let names = supported_terminals();
    assert_eq!(names, vec!["Terminal.app", "iTerm2"]);
    assert_eq!(default_terminal(), "Terminal.app");
    assert!(is_supported("Terminal.app"));
    assert!(is_supported("iTerm2"));
    assert!(!is_supported("FooTerm"));
    assert_eq!(supported_terminals_string(), "Terminal.app, iTerm2");
}

#[test]
fn plan_supported_drivers() {
    let script = "cd '/d'; cat '/d/a.txt'";
    let config = Config::new(
        "cat".to_string(),
        GroupBy::All,
        TerminalApp::Supported("Terminal.app".to_string()),
    );
    let inv = plan_run_in_new_window(&config, script).unwrap();
    assert_eq!(inv.program, TERMINAL_APP_JXA);
    assert_eq!(inv.terminal_arg, "");
    assert_eq!(inv.script_arg, script);
    let args = inv.osascript_args();
    assert_eq!(args, vec!["-lJavaScript", "-", "", script]);

    let config = Config::new(
        "cat".to_string(),
        GroupBy::All,
        TerminalApp::Supported("iTerm2".to_string()),
    );
    let inv = plan_run_in_new_window(&config, script).unwrap();
    assert_eq!(inv.program, ITERM_JXA);
    assert_eq!(inv.script_arg, script);
}

#[test]
fn plan_generic_driver_appends_newline() {
    let config = generic_config(GroupBy::All);
    let inv = plan_run_in_new_window(&config, "cat '/d/a.txt'").unwrap();
    assert_eq!(inv.program, GENERIC_JXA);
    assert_eq!(inv.terminal_arg, "FooTerm");
    assert_eq!(inv.script_arg, "cat '/d/a.txt'\n");
}

#[test]
fn plan_unknown_supported_name_is_an_error() {
    let config = Config::new(
        "cat".to_string(),
        GroupBy::All,
        TerminalApp::Supported("NoSuchTerm".to_string()),
    );
    let err = plan_run_in_new_window(&config, "x").unwrap_err();
    assert_eq!(err, "Terminal NoSuchTerm is not supported");
}

#[test]
fn run_result_classification() {
    assert!(classify_run_result(true, "").is_ok());
    assert_eq!(
        classify_run_result(false, "stderr text").unwrap_err(),
        "stderr text"
    );
}

#[test]
fn program_text_is_fixed_per_driver() {
    // Nothing from the command text leaks into the interpreter program.
    let hostile = "x'; doEvil(); '";
    let config = generic_config(GroupBy::All);
    let inv = plan_run_in_new_window(&config, hostile).unwrap();
    assert_eq!(inv.program, GENERIC_JXA);
    assert!(!inv.program.contains("doEvil"));
}
