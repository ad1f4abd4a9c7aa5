//! The shim runtime's decisions for one open-files event: filter the
//! delivered URLs down to file-system paths, compose the scripts, hand them
//! out one by one, and decide after each run whether the rest of the batch
//! is still worth attempting.

use vstd::prelude::*;

use crate::compose::{all_script, compose_scripts, single_script};
use crate::config::{Config, GroupBy, TerminalApp};
use crate::text::{contains_seq, contains_sub};

verus! {

#[verifier::external_type_specification]
#[verifier::external_body]
pub struct ExUrl(url::Url);

/// Relies on url::Url::scheme: the URL's scheme, lower-case, without `:`.
#[verifier::external_body]
fn url_scheme(u: &url::Url) -> &str {
    u.scheme()
}

/// Relies on url::Url::to_file_path: the file-system path the URL points
/// to, when it has one. Non-unicode bytes come through lossily replaced.
#[verifier::external_body]
fn url_file_path(u: &url::Url) -> Option<String> {
    match u.to_file_path() {
        Ok(p) => Some(p.into_os_string().to_string_lossy().into_owned()),
        Err(()) => None,
    }
}

/// Relies on url::Url::as_str: the URL's serialization, for messages.
#[verifier::external_body]
fn url_text(u: &url::Url) -> String {
    u.as_str().to_owned()
}

/// What becomes of one delivered URL: a usable file path, or a diagnostic to
/// report while the rest of the batch goes on.
pub enum UrlDecision {
    UsePath(String),
    Report(String),
}

/// A URL is used exactly when its scheme is `file` and it resolves to a
/// path; anything else is reported and discarded, never fatal.
pub fn decide_open_url(scheme: &str, path: Option<String>, text: &str) -> (r: UrlDecision)
    ensures
        scheme@ == "file"@ && path is Some ==> (r matches UrlDecision::UsePath(p) && path
            == Some(p)),
        scheme@ != "file"@ ==> (r matches UrlDecision::Report(m) && m@
            == "Only 'file' schemes are supported, '"@ + text@ + "''s scheme is "@ + scheme@),
        scheme@ == "file"@ && path is None ==> (r matches UrlDecision::Report(m) && m@ == "'"@
            + text@ + "' has no path"@),
{
    if !crate::text::str_eq(scheme, "file") {
        let mut m = String::from_str("Only 'file' schemes are supported, '");
        m.append(text);
        m.append("''s scheme is ");
        m.append(scheme);
        UrlDecision::Report(m)
    } else {
        match path {
            Option::Some(p) => UrlDecision::UsePath(p),
            Option::None => {
                let mut m = String::from_str("'");
                m.append(text);
                m.append("' has no path");
                UrlDecision::Report(m)
            },
        }
    }
}

/// Filters one event's URLs to file paths, in delivery order, collecting a
/// diagnostic for every URL that is discarded: nothing is silently dropped.
pub fn filter_file_paths(urls: &Vec<url::Url>) -> (r: (Vec<String>, Vec<String>))
    ensures
        r.0@.len() + r.1@.len() == urls@.len(),
{
    let mut paths: Vec<String> = Vec::new();
    let mut reports: Vec<String> = Vec::new();
    let mut i: usize = 0;
    while i < urls.len()
        invariant
            0 <= i <= urls@.len(),
            paths@.len() + reports@.len() == i,
        decreases urls@.len() - i,
    {
        let u = &urls[i];
        let scheme = url_scheme(u).to_owned();
        let path = url_file_path(u);
        let text = url_text(u);
        match decide_open_url(scheme.as_str(), path, text.as_str()) {
            UrlDecision::UsePath(p) => paths.push(p),
            UrlDecision::Report(m) => reports.push(m),
        }
        i += 1;
    }
    (paths, reports)
}

/// The error text the scripting bridge produces when the OS privacy controls
/// block keystroke injection.
pub const PERMISSION_DENIED_MARKER: &'static str = "osascript is not allowed to send keystrokes";

/// The error text the scripting bridge produces when the named application
/// does not exist.
pub const NOT_FOUND_MARKER: &'static str = "Application can't be found";

/// How one failed run affects the rest of the batch.
#[derive(Clone, Copy, Debug, PartialEq, Eq, Structural)]
pub enum FailureClass {
    /// Keystroke injection was denied: every later generic run would fail
    /// the same way, so the batch is abandoned.
    AutomationPermissionDenied,
    /// The named generic terminal does not exist: same reasoning.
    TerminalNotFound,
    /// Anything else: report it and go on with the next path.
    Recoverable,
}

pub open spec fn classify_spec(e: Seq<char>, terminal: TerminalApp) -> FailureClass {
    if contains_seq(e, PERMISSION_DENIED_MARKER@) {
        FailureClass::AutomationPermissionDenied
    } else if contains_seq(e, NOT_FOUND_MARKER@) && terminal is Generic {
        FailureClass::TerminalNotFound
    } else {
        FailureClass::Recoverable
    }
}

/// Classifies a run error: the two batch-fatal classes, or recoverable.
pub fn classify_term_error(e: &str, terminal: &TerminalApp) -> (r: FailureClass)
    ensures
        r == classify_spec(e@, *terminal),
{
    if contains_sub(e, PERMISSION_DENIED_MARKER) {
        FailureClass::AutomationPermissionDenied
    } else {
        let not_found = contains_sub(e, NOT_FOUND_MARKER);
        match terminal {
            TerminalApp::Generic(_) => {
                if not_found {
                    FailureClass::TerminalNotFound
                } else {
                    FailureClass::Recoverable
                }
            },
            TerminalApp::Supported(_) => FailureClass::Recoverable,
        }
    }
}

/// One batch of composed scripts being handed out in order. Once a fatal
/// failure is reported the dispatcher is aborted and hands out nothing more.
pub struct Dispatcher {
    pub scripts: Vec<String>,
    pub next_idx: usize,
    pub terminal: TerminalApp,
    pub aborted: bool,
}

impl Dispatcher {
    pub open spec fn wf(self) -> bool {
        self.next_idx <= self.scripts@.len()
    }

    /// Composes the batch's scripts: one for the whole batch under
    /// `GroupBy::All`, one per path under `GroupBy::PerFile`.
    pub fn new(config: &Config, paths: &Vec<String>) -> (r: Dispatcher)
        requires
            paths@.len() > 0,
        ensures
            r.wf(),
            r.next_idx == 0,
            !r.aborted,
            r.terminal == config.terminal,
            config.group_open_by == GroupBy::All ==> r.scripts@.len() == 1,
            config.group_open_by == GroupBy::PerFile ==> r.scripts@.len() == paths@.len(),
            config.group_open_by == GroupBy::All ==> r.scripts@[0]@ == all_script(
                config.command@,
                paths@.map_values(|p: String| p@),
            ),
            config.group_open_by == GroupBy::PerFile ==> forall|i: int|
                0 <= i < paths@.len() ==> r.scripts@[i]@ == single_script(
                    config.command@,
                    paths@[0]@,
                    paths@[i]@,
                ),
    {
        let scripts = compose_scripts(config, paths);
        Dispatcher { scripts, next_idx: 0, terminal: config.terminal.clone(), aborted: false }
    }

    /// Hands out the next script, in order; nothing once the batch is done
    /// or aborted.
    pub fn next_script(&mut self) -> (r: Option<String>)
        requires
            old(self).wf(),
        ensures
            final(self).wf(),
            final(self).scripts == old(self).scripts,
            final(self).terminal == old(self).terminal,
            final(self).aborted == old(self).aborted,
            old(self).aborted || old(self).next_idx == old(self).scripts@.len() ==> (r is None
                && *final(self) == *old(self)),
            !old(self).aborted && old(self).next_idx < old(self).scripts@.len() ==> (r == Some(
                old(self).scripts@[old(self).next_idx as int],
            ) && final(self).next_idx == old(self).next_idx + 1),
    {
        if self.aborted || self.next_idx == self.scripts.len() {
            return None;
        }
        let s = self.scripts[self.next_idx].clone();
        self.next_idx += 1;
        Some(s)
    }

    /// Takes the result of running the script handed out last. A fatal
    /// classification aborts the batch — every later `next_script` call
    /// returns nothing — and is returned so the caller reports it once; a
    /// recoverable failure or a success changes nothing.
    pub fn report_outcome(&mut self, outcome: &Result<(), String>) -> (r: Option<FailureClass>)
        requires
            old(self).wf(),
        ensures
            final(self).wf(),
            final(self).scripts == old(self).scripts,
            final(self).terminal == old(self).terminal,
            final(self).next_idx == old(self).next_idx,
            match outcome {
                Ok(_) => r is None && *final(self) == *old(self),
                Err(e) => {
                    let c = classify_spec(e@, old(self).terminal);
                    if c == FailureClass::Recoverable {
                        r is None && *final(self) == *old(self)
                    } else {
                        r == Some(c) && final(self).aborted
                    }
                },
            },
    {
        match outcome {
            Result::Ok(_) => None,
            Result::Err(e) => {
                let c = classify_term_error(e.as_str(), &self.terminal);
                match c {
                    FailureClass::Recoverable => None,
                    _ => {
                        self.aborted = true;
                        Some(c)
                    },
                }
            },
        }
    }
}

} // verus!
