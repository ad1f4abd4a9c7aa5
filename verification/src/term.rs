//! The terminal driver registry and the planning of one driver invocation:
//! which scripting-bridge program runs, and which explicit parameters it
//! gets. The program text is fixed per driver and never built from user
//! input; terminal name and user command travel as separate arguments, so
//! nothing in the command text can escape into the program.

use vstd::prelude::*;

use crate::config::{Config, TerminalApp};
use crate::text::str_eq;

verus! {

/// Scripting-bridge program of the built-in terminal: activate if needed,
/// then ask the application itself to execute the script.
pub const TERMINAL_APP_JXA: &'static str = r#"
        function run(argv) {
            if (argv.length !== 2) {
                console.log("Expected exactly 2 arguments");
                return;
            }

            let app = Application("Terminal");
            if (!app.running()) {
                app.activate();
            }
            app.doScript(argv[1]);
        }
    "#;

/// Scripting-bridge program of the second supported emulator: new window
/// with the default profile, then write the text into its session.
pub const ITERM_JXA: &'static str = r#"
        function run(argv) {
            if (argv.length !== 2) {
                console.log("Expected exactly 2 arguments");
                return;
            }

            let app = Application("iTerm");
            if (!app.running()) {
                app.activate();
            }
            let window = app.createWindowWithDefaultProfile({});
            window.currentSession().write({"text": argv[1]});

        }
    "#;

/// Scripting-bridge program of the generic driver: activate the named
/// application, open a new window by keystroke if it was already running,
/// wait briefly, then type the command.
pub const GENERIC_JXA: &'static str = r#"
    function run(argv) {
        if (argv.length !== 2) {
            console.log("Expected exactly 2 arguments");
            return;
        }

        let app = Application(argv[0]);
        let was_running = app.running();
        app.activate();

        let events = Application("System Events");
        if (was_running) {
            events.keystroke("n", {"using": "command down"});
        }
        delay(0.25);
        events.keystroke(argv[1]);
    }
    "#;

/// The names of the supported drivers, in registry order: the first entry is
/// the implied default.
pub open spec fn supported_names() -> Seq<Seq<char>> {
    seq!["Terminal.app"@, "iTerm2"@]
}

pub fn supported_terminals() -> (r: Vec<&'static str>)
    ensures
        r@.len() == supported_names().len(),
        forall|i: int| 0 <= i < r@.len() ==> r@[i]@ == supported_names()[i],
{
    let mut v: Vec<&'static str> = Vec::new();
    v.push("Terminal.app");
    v.push("iTerm2");
    v
}

/// The implied default driver: the first registry entry.
pub fn default_terminal() -> (r: &'static str)
    ensures
        r@ == supported_names()[0],
{
    "Terminal.app"
}

pub open spec fn is_supported_spec(name: Seq<char>) -> bool {
    supported_names().contains(name)
}

pub fn is_supported(terminal: &str) -> (r: bool)
    ensures
        r == is_supported_spec(terminal@),
{
    let r = str_eq(terminal, "Terminal.app") || str_eq(terminal, "iTerm2");
    proof {
        if r {
            assert(supported_names().contains(terminal@)) by {
                if terminal@ == "Terminal.app"@ {
                    assert(supported_names()[0] == terminal@);
                } else {
                    assert(supported_names()[1] == terminal@);
                }
            }
        } else {
            if supported_names().contains(terminal@) {
                let i = choose|i: int|
                    0 <= i < supported_names().len() && supported_names()[i] == terminal@;
                assert(i == 0 || i == 1);
            }
        }
    }
    r
}

/// The supported names joined with `", "`, for help texts.
pub fn supported_terminals_string() -> (r: String)
    ensures
        r@ == supported_names()[0] + ", "@ + supported_names()[1],
{
    let mut s = String::from_str("Terminal.app");
    s.append(", ");
    s.append("iTerm2");
    s
}

/// One fully planned scripting-bridge call: the fixed program text (fed to
/// the interpreter over its input stream), and the two explicit arguments.
#[derive(Debug)]
pub struct JxaInvocation {
    pub program: String,
    pub terminal_arg: String,
    pub script_arg: String,
}

impl JxaInvocation {
    /// The interpreter's argument list: language selector, "read the program
    /// from the input stream", then the two script arguments.
    pub fn osascript_args(&self) -> (r: Vec<String>)
        ensures
            r@.len() == 4,
            r@[0]@ == "-lJavaScript"@,
            r@[1]@ == "-"@,
            r@[2]@ == self.terminal_arg@,
            r@[3]@ == self.script_arg@,
    {
        let mut v: Vec<String> = Vec::new();
        v.push(String::from_str("-lJavaScript"));
        v.push(String::from_str("-"));
        v.push(self.terminal_arg.clone());
        v.push(self.script_arg.clone());
        v
    }
}

/// What `plan_run_in_new_window` must produce, per terminal selection.
pub open spec fn plan_spec(terminal: TerminalApp, script: Seq<char>) -> Result<
    (Seq<char>, Seq<char>, Seq<char>),
    Seq<char>,
> {
    match terminal {
        TerminalApp::Supported(name) => {
            if name@ == "Terminal.app"@ {
                Ok((TERMINAL_APP_JXA@, Seq::empty(), script))
            } else if name@ == "iTerm2"@ {
                Ok((ITERM_JXA@, Seq::empty(), script))
            } else {
                Err("Terminal "@ + name@ + " is not supported"@)
            }
        },
        TerminalApp::Generic(name) => Ok((GENERIC_JXA@, name@, script + "\n"@)),
    }
}

/// Plans the one driver call for a composed script. The program text is one
/// of the three fixed constants, never derived from the script; the generic
/// driver gets a trailing newline typed after the command.
pub fn plan_run_in_new_window(config: &Config, script: &str) -> (r: Result<JxaInvocation, String>)
    ensures
        match r {
            Ok(inv) => plan_spec(config.terminal, script@) == Ok::<
                (Seq<char>, Seq<char>, Seq<char>),
                Seq<char>,
            >((inv.program@, inv.terminal_arg@, inv.script_arg@)),
            Err(m) => plan_spec(config.terminal, script@) == Err::<
                (Seq<char>, Seq<char>, Seq<char>),
                Seq<char>,
            >(m@),
        },
{
    match &config.terminal {
        TerminalApp::Supported(name) => {
            if str_eq(name.as_str(), "Terminal.app") {
                Ok(
                    JxaInvocation {
                        program: String::from_str(TERMINAL_APP_JXA),
                        terminal_arg: String::new(),
                        script_arg: script.to_owned(),
                    },
                )
            } else if str_eq(name.as_str(), "iTerm2") {
                Ok(
                    JxaInvocation {
                        program: String::from_str(ITERM_JXA),
                        terminal_arg: String::new(),
                        script_arg: script.to_owned(),
                    },
                )
            } else {
                let mut m = String::from_str("Terminal ");
                m.append(name.as_str());
                m.append(" is not supported");
                proof {
                    assert("Terminal "@ + name@ + " is not supported"@ =~= m@);
                }
                Err(m)
            }
        },
        TerminalApp::Generic(name) => {
            let mut script_arg = script.to_owned();
            script_arg.append("\n");
            Ok(
                JxaInvocation {
                    program: String::from_str(GENERIC_JXA),
                    terminal_arg: name.clone(),
                    script_arg,
                },
            )
        },
    }
}

/// Maps the interpreter's exit to the driver's result: success is success,
/// and a non-zero exit carries the interpreter's standard-error text.
pub fn classify_run_result(success: bool, stderr: &str) -> (r: Result<(), String>)
    ensures
        success ==> r is Ok,
        !success ==> (r matches Err(m) && m@ == stderr@),
{
    if success {
        Ok(())
    } else {
        Err(stderr.to_owned())
    }
}

} // verus!
