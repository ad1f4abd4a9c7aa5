use std::collections::HashMap;

use echidna_lib::generate::{create_dir_error, BundleTmpDir};
use echidna_lib::install::{RenameOutcome, SagaStep, SaveErr, SaveSaga};
use echidna_lib::paths::{get_names, with_extension};

/// A toy file system: whole bundle trees, one content per occupied path.
/// Renames move an entry when the target is free; an occupied target gives
/// the "not empty" refusal.
struct ToyFs(HashMap<String, String>);

impl ToyFs {
    fn rename(&mut self, from: &str, to: &str) -> RenameOutcome {
        if self.0.contains_key(to) {
            return RenameOutcome::NotEmpty;
        }
        match self.0.remove(from) {
            Some(content) => {
                self.0.insert(to.to_string(), content);
                RenameOutcome::Done
            }
            None => RenameOutcome::OtherError("no such file".to_string()),
        }
    }
}

const TMP: &str = "/scratch/Name.app";
const DST: &str = "/Apps/Name.app";
const BAK: &str = "/scratch/Name.bak";

fn occupied_fs() -> ToyFs {
    let mut m = HashMap::new();
    m.insert(TMP.to_string(), "staged".to_string());
    m.insert(DST.to_string(), "existing".to_string());
    ToyFs(m)
}

#[test]
fn overwrite_gating() {
    // overwrite=false onto an occupied destination: AppAlreadyExists, and
    // the existing bundle is untouched.
    let mut fs = occupied_fs();
    let (mut saga, step) = SaveSaga::begin(TMP.to_string(), DST.to_string(), false, true);
    let outcome = match step {
        SagaStep::Rename { ref from, ref to } => {
            assert_eq!(from, TMP);
            assert_eq!(to, DST);
            fs.rename(from, to)
        }
        SagaStep::Finished(_) => panic!("expected a rename first"),
    };
    assert!(matches!(outcome, RenameOutcome::NotEmpty));
    match saga.advance(outcome) {
        SagaStep::Finished(Err(SaveErr::AppAlreadyExists)) => {}
        _ => panic!("expected AppAlreadyExists"),
    }
    assert_eq!(fs.0.get(DST).unwrap(), "existing");
    assert_eq!(fs.0.get(TMP).unwrap(), "staged");
}

#[test]
fn overwrite_success() {
    // overwrite=true: backup aside, move in, success; the destination now
    // holds the staged content.
    let mut fs = occupied_fs();
    let (mut saga, step) = SaveSaga::begin(TMP.to_string(), DST.to_string(), true, true);
    let outcome = match step {
        SagaStep::Rename { ref from, ref to } => {
            assert_eq!(from, DST);
            assert_eq!(to, BAK);
            fs.rename(from, to)
        }
        SagaStep::Finished(_) => panic!("expected the backup rename first"),
    };
    assert!(matches!(outcome, RenameOutcome::Done));
    let step = saga.advance(outcome);
    let outcome = match step {
        SagaStep::Rename { ref from, ref to } => {
            assert_eq!(from, TMP);
            assert_eq!(to, DST);
            fs.rename(from, to)
        }
        SagaStep::Finished(_) => panic!("expected the move"),
    };
    assert!(matches!(outcome, RenameOutcome::Done));
    match saga.advance(outcome) {
        SagaStep::Finished(Ok(())) => {}
        _ => panic!("expected success"),
    }
    assert_eq!(fs.0.get(DST).unwrap(), "staged");
    assert!(!fs.0.contains_key(TMP));
    assert_eq!(fs.0.get(BAK).unwrap(), "existing");
}

#[test]
fn compensating_rollback() {
    // The move is forced to fail after the backup was taken: the saga asks
    // for the restore, the destination gets its old content back, and the
    // reported error is the move's own.
    let mut fs = occupied_fs();
    let (mut saga, step) = SaveSaga::begin(TMP.to_string(), DST.to_string(), true, true);
    let outcome = match step {
        SagaStep::Rename { ref from, ref to } => fs.rename(from, to),
        SagaStep::Finished(_) => panic!("expected the backup rename first"),
    };
    let step = saga.advance(outcome);
    match &step {
        SagaStep::Rename { from, to } => {
            assert_eq!(from, TMP);
            assert_eq!(to, DST);
        }
        SagaStep::Finished(_) => panic!("expected the move"),
    }
    // Inject the failure instead of performing the move.
    let step = saga.advance(RenameOutcome::OtherError("disk glitch".to_string()));
    let outcome = match step {
        SagaStep::Rename { ref from, ref to } => {
            assert_eq!(from, BAK);
            assert_eq!(to, DST);
            fs.rename(from, to)
        }
        SagaStep::Finished(_) => panic!("expected the restore"),
    };
    assert!(matches!(outcome, RenameOutcome::Done));
    match saga.advance(outcome) {
        SagaStep::Finished(Err(SaveErr::Other(msg))) => {
            assert_eq!(
                msg,
                "Error moving temporary app '/scratch/Name.app' to out_dir \
                 '/Apps/Name.app': disk glitch"
            );
        }
        _ => panic!("expected the move's own error"),
    }
    assert_eq!(fs.0.get(DST).unwrap(), "existing");
    assert!(!fs.0.contains_key(BAK));
}

#[test]
fn backup_failure_is_best_effort() {
    // The aside-rename fails: the move proceeds anyway, without a backup,
    // and a later move failure triggers no restore.
    let (mut saga, step) = SaveSaga::begin(TMP.to_string(), DST.to_string(), true, true);
    assert!(matches!(step, SagaStep::Rename { .. }));
    let step = saga.advance(RenameOutcome::OtherError("backup denied".to_string()));
    match &step {
        SagaStep::Rename { from, to } => {
            assert_eq!(from, TMP);
            assert_eq!(to, DST);
        }
        SagaStep::Finished(_) => panic!("the move is still attempted"),
    }
    match saga.advance(RenameOutcome::OtherError("move denied".to_string())) {
        SagaStep::Finished(Err(SaveErr::Other(msg))) => {
            assert!(msg.ends_with("move denied"));
        }
        _ => panic!("no restore without a backup"),
    }
}

#[test]
fn restore_failure_is_silent() {
    // The restore's own failure is not reported, to avoid masking the
    // move's error.
    let (mut saga, _step) = SaveSaga::begin(TMP.to_string(), DST.to_string(), true, true);
    let step = saga.advance(RenameOutcome::Done);
    assert!(matches!(step, SagaStep::Rename { .. }));
    let step = saga.advance(RenameOutcome::NotEmpty);
    assert!(matches!(step, SagaStep::Rename { .. }));
    match saga.advance(RenameOutcome::OtherError("restore denied".to_string())) {
        SagaStep::Finished(Err(SaveErr::AppAlreadyExists)) => {}
        _ => panic!("the move's own error is what is reported"),
    }
}

#[test]
fn no_backup_without_matching_names() {
    // A destination under a different bundle name is never renamed aside.
    let (_saga, step) = SaveSaga::begin(
        "/scratch/Name.app".to_string(),
        "/Apps/Other.app".to_string(),
        true,
        true,
    );
    match step {
        SagaStep::Rename { ref from, ref to } => {
            assert_eq!(from, "/scratch/Name.app");
            assert_eq!(to, "/Apps/Other.app");
        }
        SagaStep::Finished(_) => panic!("expected the direct move"),
    }
}

#[test]
fn save_err_messages() {
    assert_eq!(
        SaveErr::AppAlreadyExists.to_msg("/Apps/Name.app"),
        "App already exists at '/Apps/Name.app'. Run with [-f|--force] to overwrite."
    );
    assert_eq!(SaveErr::Other("boom".to_string()).to_msg("/x"), "boom");
    assert_eq!(
        echidna_lib::GenErr::AppAlreadyExists.to_msg("/y"),
        "App already exists at '/y'. Run with [-f|--force] to overwrite."
    );
    assert_eq!(echidna_lib::GenErr::Other("m".to_string()).to_msg("/y"), "m");
}

#[test]
fn get_names_cases() {
    // An `.app` path names the app by its stem.
    let (app, bundle, dest) = get_names("/out/Tool.app").unwrap();
    assert_eq!(app, "Tool");
    assert_eq!(bundle, "Tool.app");
    assert_eq!(dest, "/out/Tool.app");

    // Any other extension stays part of the name.
    let (app, bundle, dest) = get_names("/out/Tool.v2").unwrap();
    assert_eq!(app, "Tool.v2");
    assert_eq!(bundle, "Tool.v2.app");
    assert_eq!(dest, "/out/Tool.v2.app");

    // No extension: the whole name, `.app` appended.
    let (app, bundle, dest) = get_names("/out/Tool").unwrap();
    assert_eq!(app, "Tool");
    assert_eq!(bundle, "Tool.app");
    assert_eq!(dest, "/out/Tool.app");

    // A bare name works too.
    let (app, _bundle, dest) = get_names("Tool").unwrap();
    assert_eq!(app, "Tool");
    assert_eq!(dest, "Tool.app");

    // A path without a usable final component is an error.
    let err = get_names("/").unwrap_err();
    assert_eq!(err, "Couldn't get file name from /");
}

#[test]
fn with_extension_cases() {
    assert_eq!(with_extension("/t/Name.app", "bak"), "/t/Name.bak");
    assert_eq!(with_extension("/t/Name", "bak"), "/t/Name.bak");
    assert_eq!(with_extension("Name.tar.gz", "bak"), "Name.tar.bak");
}

#[test]
fn bundle_layout() {
    let d = BundleTmpDir::new("/scratch", "Name.app");
    assert_eq!(d.app_root(), "/scratch/Name.app");
    assert_eq!(d.contents(), "/scratch/Name.app/Contents");
    assert_eq!(d.mac_os(), "/scratch/Name.app/Contents/MacOS");
    assert_eq!(d.resources(), "/scratch/Name.app/Contents/Resources");
    let dirs = d.dirs_in_order();
    assert_eq!(dirs.len(), 4);
    assert_eq!(dirs[0], "/scratch/Name.app");
    assert_eq!(dirs[3], "/scratch/Name.app/Contents/Resources");
}

#[test]
fn create_dir_error_is_relative_inside_root() {
    assert_eq!(
        create_dir_error("/scratch/x/Contents", "/scratch/x", "denied"),
        "cannot create directory Contents: denied"
    );
    // A path outside the scratch root is reported as it is.
    assert_eq!(
        create_dir_error("/elsewhere/d", "/scratch/x", "denied"),
        "cannot create directory /elsewhere/d: denied"
    );
}
