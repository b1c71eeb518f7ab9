//! The command line.

use vstd::prelude::*;

use crate::text::owned;
use crate::text::parts_notes;
use crate::text::same_text;

verus! {

/// What the command line asks for.
#[derive(Debug)]
pub enum Command {
    Doctor,
    Connect,
    Run,
    Help,
    Version,
    Unknown(String),
}

/// What a [`Command`] says.
pub enum CommandNote {
    Doctor,
    Connect,
    Run,
    Help,
    Version,
    Unknown(Seq<char>),
}

impl Command {
    pub open spec fn view(&self) -> CommandNote {
        match self {
            Command::Doctor => CommandNote::Doctor,
            Command::Connect => CommandNote::Connect,
            Command::Run => CommandNote::Run,
            Command::Help => CommandNote::Help,
            Command::Version => CommandNote::Version,
            Command::Unknown(word) => CommandNote::Unknown(word@),
        }
    }
}

/// The command that the first argument names. Without one, as after a double click,
/// the window manager opens.
pub open spec fn command_in(args: Seq<Seq<char>>) -> CommandNote {
    if args.len() == 0 {
        CommandNote::Run
    } else if args[0] == "doctor"@ {
        CommandNote::Doctor
    } else if args[0] == "connect"@ {
        CommandNote::Connect
    } else if args[0] == "run"@ {
        CommandNote::Run
    } else if args[0] == "-h"@ || args[0] == "--help"@ || args[0] == "help"@ {
        CommandNote::Help
    } else if args[0] == "--version"@ || args[0] == "-V"@ {
        CommandNote::Version
    } else {
        CommandNote::Unknown(args[0])
    }
}

/// The command that the first argument names.
pub fn command_of(args: &[String]) -> (command: Command)
    ensures
        command@ == command_in(parts_notes(args@)),
{
    if args.len() == 0 {
        return Command::Run;
    }
    let word = args[0].as_str();
    proof {
        assert(parts_notes(args@)[0] == word@);
    }
    if same_text(word, "doctor") {
        Command::Doctor
    } else if same_text(word, "connect") {
        Command::Connect
    } else if same_text(word, "run") {
        Command::Run
    } else if same_text(word, "-h") || same_text(word, "--help") || same_text(word, "help") {
        Command::Help
    } else if same_text(word, "--version") || same_text(word, "-V") {
        Command::Version
    } else {
        Command::Unknown(owned(word))
    }
}

/// The argument behind the first occurrence of a name from `i` on, if it is there.
pub open spec fn value_after(args: Seq<Seq<char>>, name: Seq<char>, i: int) -> Option<Seq<char>>
    decreases args.len() - i,
{
    if i < 0 || i >= args.len() {
        None
    } else if args[i] == name {
        if i + 1 < args.len() {
            Some(args[i + 1])
        } else {
            None
        }
    } else {
        value_after(args, name, i + 1)
    }
}

/// The argument behind the first occurrence of a name, if it is there.
pub fn argument_value(args: &[String], name: &str) -> (value: Option<String>)
    ensures
        match value {
            Some(value) => Some(value@),
            None => None,
        } == value_after(parts_notes(args@), name@, 0),
{
    let ghost all = parts_notes(args@);
    let mut i: usize = 0;
    while i < args.len()
        invariant
            i <= args@.len(),
            all == parts_notes(args@),
            value_after(all, name@, 0) == value_after(all, name@, i as int),
        decreases args@.len() - i,
    {
        proof {
            assert(all[i as int] == args@[i as int]@);
            if i + 1 < args@.len() {
                assert(all[i + 1] == args@[i + 1]@);
            }
        }
        if same_text(args[i].as_str(), name) {
            if args.len() - i > 1 {
                return Some(args[i + 1].clone());
            }
            return None;
        }
        i += 1;
    }
    None
}

} // verus!
