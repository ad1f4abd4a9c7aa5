//! Packages a shell command into a minimal double-clickable application
//! bundle: when files are dropped on the generated bundle, a shim process
//! composes a safely quoted script and runs it in a terminal emulator.
//!
//! The library holds the verified core: configuration data, shell quoting,
//! script composition, manifest rendering, the staged-install saga with its
//! best-effort rollback, and the dispatch policy of the shim runtime.
//! Everything that touches the operating system (directories, processes,
//! the open-files callback) lives outside, feeding plain values in and
//! carrying planned actions out.

use vstd::prelude::*;

pub mod compose;
pub mod config;
pub mod dispatch;
pub mod generate;
pub mod install;
pub mod manifest;
pub mod misc;
pub mod paths;
pub mod quote;
pub mod term;
pub mod text;
pub mod typelist;

verus! {

/// Errors of the whole generation pipeline. `AppAlreadyExists` is separated
/// out to give the caller an opportunity to offer an overwrite.
pub enum GenErr {
    AppAlreadyExists,
    Other(String),
}

impl GenErr {
    pub fn to_msg(&self, app_dst_path: &str) -> (r: String)
        ensures
            match self {
                GenErr::AppAlreadyExists => r@ == "App already exists at '"@ + app_dst_path@
                    + "'. Run with [-f|--force] to overwrite."@,
                GenErr::Other(msg) => r@ == msg@,
            },
    {
        match self {
            GenErr::AppAlreadyExists => {
                let mut m = String::from_str("App already exists at '");
                m.append(app_dst_path);
                m.append("'. Run with [-f|--force] to overwrite.");
                m
            },
            GenErr::Other(msg) => msg.clone(),
        }
    }
}

} // verus!
