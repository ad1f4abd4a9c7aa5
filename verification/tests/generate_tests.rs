use echidna_lib::config::{Config, GroupBy, TerminalApp};
use echidna_lib::generate::{icon_action_for, Generator, IconAction};
use echidna_lib::install::{RenameOutcome, SagaStep, SaveErr};
use echidna_lib::manifest::DocTypes;
use echidna_lib::text::u64_to_dec;

fn test_config() -> Config {
    Config::new(
        "open".to_string(),
        GroupBy::All,
        TerminalApp::Supported("Terminal.app".to_string()),
    )
}

#[test]
fn gen_plans_the_whole_bundle() {
    let config = test_config();
    let (generator, plan) = Generator::gen(
        &config,
        &DocTypes::TextFiles,
        "/rsrc/echidna-shim",
        Some("com.example.ToolOpener"),
        None,
        "/out/Tool",
        "/scratch",
    )
    .unwrap();

    assert_eq!(plan.dirs.app_root(), "/scratch/Tool.app");
    assert_eq!(plan.dirs.contents(), "/scratch/Tool.app/Contents");
    assert_eq!(plan.dirs.mac_os(), "/scratch/Tool.app/Contents/MacOS");
    assert_eq!(plan.dirs.resources(), "/scratch/Tool.app/Contents/Resources");
    assert_eq!(
        plan.info_plist_path,
        "/scratch/Tool.app/Contents/Info.plist"
    );
    assert!(plan
        .info_plist_text
        .contains("<key>CFBundleIdentifier</key>\n    <string>com.example.ToolOpener</string>"));
    assert!(plan
        .info_plist_text
        .contains("<key>CFBundleExecutable</key>\n    <string>Tool</string>"));
    assert_eq!(plan.shim_src, "/rsrc/echidna-shim");
    assert_eq!(plan.shim_dst, "/scratch/Tool.app/Contents/MacOS/Tool");
    assert_eq!(
        plan.config_path,
        "/scratch/Tool.app/Contents/Resources/config.json"
    );
    assert_eq!(plan.config_text, config.to_json());
    assert_eq!(
        plan.icon_path,
        "/scratch/Tool.app/Contents/Resources/AppIcon.icns"
    );
    assert!(matches!(plan.icon_action, IconAction::WriteDefault));
    assert_eq!(generator.final_bundle_path(), "/out/Tool.app");
    assert!(!generator.saved);
}

#[test]
fn gen_without_identifier_synthesizes_one() {
    let config = test_config();
    let (_generator, plan) = Generator::gen(
        &config,
        &DocTypes::TextFiles,
        "/rsrc/echidna-shim",
        None,
        None,
        "/out/Tool.app",
        "/scratch",
    )
    .unwrap();
    assert!(plan
        .info_plist_text
        .contains("<key>CFBundleIdentifier</key>\n    <string>local."));
}

#[test]
fn gen_rejects_unusable_path() {
    let config = test_config();
    let err = Generator::gen(
        &config,
        &DocTypes::TextFiles,
        "/rsrc/echidna-shim",
        None,
        None,
        "/",
        "/scratch",
    )
    .unwrap_err();
    assert_eq!(err, "Couldn't get file name from /");
}

#[test]
fn save_lifecycle_success_and_retry() {
    let config = test_config();
    let (mut generator, _plan) = Generator::gen(
        &config,
        &DocTypes::TextFiles,
        "/rsrc/echidna-shim",
        Some("id"),
        None,
        "/out/Tool",
        "/scratch",
    )
    .unwrap();

    // First attempt fails; the session stays open for a retry.
    let (mut saga, step) = generator.save(false, true);
    assert!(matches!(step, SagaStep::Rename { .. }));
    let step = saga.advance(RenameOutcome::NotEmpty);
    let result = match step {
        SagaStep::Finished(r) => r,
        SagaStep::Rename { .. } => panic!("expected the saga to finish"),
    };
    assert!(matches!(result, Err(SaveErr::AppAlreadyExists)));
    generator.complete_save(&result);
    assert!(!generator.saved);

    // The retry with overwrite succeeds and marks the session saved.
    let (mut saga, step) = generator.save(true, true);
    let step = match step {
        SagaStep::Rename { .. } => saga.advance(RenameOutcome::Done),
        SagaStep::Finished(_) => panic!("expected the backup rename"),
    };
    let result = match step {
        SagaStep::Rename { .. } => match saga.advance(RenameOutcome::Done) {
            SagaStep::Finished(r) => r,
            SagaStep::Rename { .. } => panic!("expected the saga to finish"),
        },
        SagaStep::Finished(_) => panic!("expected the move"),
    };
    assert!(result.is_ok());
    generator.complete_save(&result);
    assert!(generator.saved);
}

#[test]
fn icon_decisions() {
    assert!(matches!(icon_action_for(None), IconAction::WriteDefault));
    match icon_action_for(Some("/art/icon.png")) {
        IconAction::CopyFile(p) => assert_eq!(p, "/art/icon.png"),
        _ => panic!("png is copied byte for byte"),
    }
    match icon_action_for(Some("/art/icon.icns")) {
        IconAction::CopyFile(p) => assert_eq!(p, "/art/icon.icns"),
        _ => panic!("icns is copied byte for byte"),
    }
    match icon_action_for(Some("/art/photo.jpeg")) {
        IconAction::ConvertToPng(p) => assert_eq!(p, "/art/photo.jpeg"),
        _ => panic!("other formats are converted"),
    }
    match icon_action_for(Some("/art/noext")) {
        IconAction::ConvertToPng(p) => assert_eq!(p, "/art/noext"),
        _ => panic!("no extension means conversion"),
    }
}

#[test]
fn decimal_rendering() {
    assert_eq!(u64_to_dec(0), "0");
    assert_eq!(u64_to_dec(7), "7");
    assert_eq!(u64_to_dec(999999), "999999");
    assert_eq!(u64_to_dec(1000000007), "1000000007");
    assert_eq!(u64_to_dec(u64::MAX), "18446744073709551615");
}

#[test]
fn text_helpers() {
    assert!(echidna_lib::text::contains_sub("hello world", "lo wo"));
    assert!(!echidna_lib::text::contains_sub("hello", "world"));
    assert!(echidna_lib::text::contains_sub("abc", ""));
    assert!(echidna_lib::text::starts_with("abc", "ab"));
    assert!(!echidna_lib::text::starts_with("abc", "bc"));
    assert_eq!(echidna_lib::text::trim("  a b \t"), "a b");
    assert_eq!(echidna_lib::text::strip_dots("..a.b"), "a.b");
    assert_eq!(echidna_lib::text::strip_dots("..."), "");
}
