//! The structured commands the session state machine accepts, parsed from
//! whitespace-split tokens of one input line.

use vstd::prelude::*;

use crate::stack::str_eq;

verus! {

/// One user command.
pub enum DebuggerCommand {
    Quit,
    Run(Vec<String>),
    Cont,
    Kill,
    Backtrace,
    Breakpoint(String),
}

impl DebuggerCommand {
    /// Parses one tokenized command line. The first token picks the
    /// command; a `run` takes the remaining tokens as the target's
    /// arguments; a `break` takes exactly one following token as the
    /// breakpoint location. Anything else is not a command.
    pub fn from_tokens(tokens: &Vec<&str>) -> (r: Option<DebuggerCommand>)
        requires
            tokens@.len() >= 1,
        ensures
            ({
                let t0 = tokens@[0]@;
                match r {
                    Some(DebuggerCommand::Quit) => t0 == "q"@ || t0 == "quit"@,
                    Some(DebuggerCommand::Run(args)) => (t0 == "r"@ || t0 == "run"@)
                        && args@.len() == tokens@.len() - 1 && (forall|j: int|
                        0 <= j < args@.len() ==> (#[trigger] args@[j])@ == tokens@[j + 1]@),
                    Some(DebuggerCommand::Cont) => t0 == "c"@ || t0 == "cont"@ || t0
                        == "continue"@,
                    Some(DebuggerCommand::Kill) => t0 == "k"@ || t0 == "kill"@,
                    Some(DebuggerCommand::Backtrace) => t0 == "bt"@ || t0 == "back"@ || t0
                        == "backtrace"@,
                    Some(DebuggerCommand::Breakpoint(loc)) => (t0 == "b"@ || t0 == "break"@)
                        && tokens@.len() >= 2 && loc@ == tokens@[1]@,
                    None => !(t0 == "q"@ || t0 == "quit"@ || t0 == "r"@ || t0 == "run"@ || t0
                        == "c"@ || t0 == "cont"@ || t0 == "continue"@ || t0 == "k"@ || t0
                        == "kill"@ || t0 == "bt"@ || t0 == "back"@ || t0 == "backtrace"@) || ((
                    t0 == "b"@ || t0 == "break"@) && tokens@.len() < 2),
                }
            }),
    {
        let t0 = tokens[0];
        if str_eq(t0, "q") || str_eq(t0, "quit") {
            return Some(DebuggerCommand::Quit);
        }
        if str_eq(t0, "r") || str_eq(t0, "run") {
            let mut args: Vec<String> = Vec::new();
            let mut i: usize = 1;
            while i < tokens.len()
                invariant
                    1 <= i <= tokens@.len(),
                    args@.len() == i - 1,
                    forall|j: int| 0 <= j < args@.len() ==> (#[trigger] args@[j])@ == tokens@[j
                        + 1]@,
                decreases tokens@.len() - i,
            {
                args.push(String::from_str(tokens[i]));
                i += 1;
            }
            return Some(DebuggerCommand::Run(args));
        }
        if str_eq(t0, "c") || str_eq(t0, "cont") || str_eq(t0, "continue") {
            return Some(DebuggerCommand::Cont);
        }
        if str_eq(t0, "k") || str_eq(t0, "kill") {
            return Some(DebuggerCommand::Kill);
        }
        if str_eq(t0, "bt") || str_eq(t0, "back") || str_eq(t0, "backtrace") {
            return Some(DebuggerCommand::Backtrace);
        }
        if str_eq(t0, "b") || str_eq(t0, "break") {
            if tokens.len() < 2 {
                return None;
            }
            return Some(DebuggerCommand::Breakpoint(String::from_str(tokens[1])));
        }
        None
    }
}

} // verus!
