use echidna_lib::config::{Config, GroupBy, TerminalApp};
use echidna_lib::generate::compose_bundle_id;
use echidna_lib::generate::generate_bundle_id;
use echidna_lib::misc::app_resources_from_exe;

fn roundtrip(c: &Config) -> Config {
    Config::from_json(&c.to_json()).expect("round trip failed")
}

#[test]
fn config_json_exact_text() {
    let c = Config::new(
        "open".to_string(),
        GroupBy::All,
        TerminalApp::Supported("Terminal.app".to_string()),
    );
    assert_eq!(
        c.to_json(),
        "{\"command\":\"open\",\"group_open_by\":\"all\",\
         \"terminal\":{\"Supported\":\"Terminal.app\"}}"
    );
    let c = Config::new(
        "cat -v".to_string(),
        GroupBy::PerFile,
        TerminalApp::Generic("FooTerm".to_string()),
    );
    assert_eq!(
        c.to_json(),
        "{\"command\":\"cat -v\",\"group_open_by\":\"none\",\
         \"terminal\":{\"Generic\":\"FooTerm\"}}"
    );
}

#[test]
fn config_json_escapes() {
    let c = Config::new(
        "say \"hi\\there\"\n".to_string(),
        GroupBy::All,
        TerminalApp::Supported("Terminal.app".to_string()),
    );
    assert_eq!(
        c.to_json(),
        "{\"command\":\"say \\\"hi\\\\there\\\"\\n\",\"group_open_by\":\"all\",\
         \"terminal\":{\"Supported\":\"Terminal.app\"}}"
    );
}

#[test]
fn config_round_trips_unmodified() {
    let cases = vec![
        Config::new(
            "open".to_string(),
            GroupBy::All,
            TerminalApp::Supported("Terminal.app".to_string()),
        ),
        Config::new(
            "cat 'x'".to_string(),
            GroupBy::PerFile,
            TerminalApp::Generic("Foo Term".to_string()),
        ),
        Config::new(
            "echo \"a\\b\"\t\r\n".to_string(),
            GroupBy::All,
            TerminalApp::Generic(String::new()),
        ),
    ];
    for c in &cases {
        let back = roundtrip(c);
        assert_eq!(back.command, c.command);
        assert_eq!(back.group_open_by, c.group_open_by);
        match (&back.terminal, &c.terminal) {
            (TerminalApp::Supported(a), TerminalApp::Supported(b)) => assert_eq!(a, b),
            (TerminalApp::Generic(a), TerminalApp::Generic(b)) => assert_eq!(a, b),
            _ => panic!("terminal variant changed"),
        }
    }
}

#[test]
fn config_load_rejects_empty_command() {
    let text = "{\"command\":\"\",\"group_open_by\":\"all\",\
                \"terminal\":{\"Supported\":\"Terminal.app\"}}";
    assert_eq!(
        Config::from_json(text).unwrap_err(),
        "Config's 'command' field may not be empty"
    );
}

#[test]
fn config_load_rejects_malformed_text() {
    assert!(Config::from_json("").is_err());
    assert!(Config::from_json("{}").is_err());
    assert!(Config::from_json("{\"command\":\"x\"}").is_err());
    let bad_group = "{\"command\":\"x\",\"group_open_by\":\"some\",\
                     \"terminal\":{\"Supported\":\"T\"}}";
    assert!(Config::from_json(bad_group).is_err());
    let bad_tag = "{\"command\":\"x\",\"group_open_by\":\"all\",\
                   \"terminal\":{\"Weird\":\"T\"}}";
    assert!(Config::from_json(bad_tag).is_err());
}

#[test]
fn group_by_names_and_default() {
    assert_eq!(GroupBy::All.to_string(), "all");
    assert_eq!(GroupBy::PerFile.to_string(), "none");
    assert_eq!(GroupBy::default(), GroupBy::All);
}

#[test]
fn terminal_name_reaches_through_both_variants() {
    assert_eq!(TerminalApp::Supported("A".to_string()).name(), "A");
    assert_eq!(TerminalApp::Generic("B".to_string()).name(), "B");
}

#[test]
fn bundle_id_composition() {
    assert_eq!(compose_bundle_id("myhost", "Tool", 42), "local.myhost.Tool42");
    assert_eq!(compose_bundle_id("h", "A", 0), "local.h.A0");
    assert_eq!(
        compose_bundle_id("box", "Opener", 999999),
        "local.box.Opener999999"
    );
}

#[test]
fn generated_bundle_id_shape() {
    let id = generate_bundle_id("Tool");
    assert!(id.starts_with("local."));
    assert!(id.contains(".Tool"));
    let digits: String = id.chars().rev().take_while(|c| c.is_ascii_digit()).collect();
    assert!(!digits.is_empty());
}

#[test]
fn resources_dir_from_exe_path() {
    assert_eq!(
        app_resources_from_exe("/Apps/Tool.app/Contents/MacOS/Tool").unwrap(),
        "/Apps/Tool.app/Contents/Resources"
    );
    assert_eq!(
        app_resources_from_exe("/").unwrap_err(),
        "Couldn't pop binary filename from path '/' !?"
    );
    assert_eq!(
        app_resources_from_exe("/Tool").unwrap_err(),
        "Couldn' MacOS/ from path '/', is this being run in an app bundle?"
    );
}
