//! The control vocabulary spoken between the client and the daemon.
use vstd::prelude::*;
use crate::text::{concat, str_eq, trim, trimmed};

verus! {

#[derive(Clone, Copy, Debug, PartialEq, Eq, Structural)]
pub enum Command {
    Enable,
    Disable,
    Toggle,
    Status,
    Quit,
}

/// Why a control line was refused.
#[derive(Debug)]
pub enum ControlError {
    /// The trimmed line is none of the five commands.
    UnknownCommand(String),
}

impl Command {
    /// The word that names the command on the wire.
    pub open spec fn word(self) -> Seq<char> {
        match self {
            Command::Enable => "enable"@,
            Command::Disable => "disable"@,
            Command::Toggle => "toggle"@,
            Command::Status => "status"@,
            Command::Quit => "quit"@,
        }
    }

    /// The command whose word is `s` once trimmed, if any.
    pub open spec fn parse_spec(s: Seq<char>) -> Option<Command> {
        let t = trimmed(s);
        if t == "enable"@ {
            Some(Command::Enable)
        } else if t == "disable"@ {
            Some(Command::Disable)
        } else if t == "toggle"@ {
            Some(Command::Toggle)
        } else if t == "status"@ {
            Some(Command::Status)
        } else if t == "quit"@ {
            Some(Command::Quit)
        } else {
            None
        }
    }

    pub fn as_str(self) -> (r: &'static str)
        ensures
            r@ == self.word(),
    {
        match self {
            Command::Enable => "enable",
            Command::Disable => "disable",
            Command::Toggle => "toggle",
            Command::Status => "status",
            Command::Quit => "quit",
        }
    }

    /// Parses one control line; surrounding whitespace is ignored, case is not.
    pub fn parse(s: &str) -> (r: Result<Command, ControlError>)
        ensures
            match Command::parse_spec(s@) {
                Some(c) => r == Ok::<Command, ControlError>(c),
                None => r matches Err(ControlError::UnknownCommand(t)) && t@ == trimmed(s@),
            },
    {
        let t = trim(s);
        if str_eq(t.as_str(), "enable") {
            Ok(Command::Enable)
        } else if str_eq(t.as_str(), "disable") {
            Ok(Command::Disable)
        } else if str_eq(t.as_str(), "toggle") {
            Ok(Command::Toggle)
        } else if str_eq(t.as_str(), "status") {
            Ok(Command::Status)
        } else if str_eq(t.as_str(), "quit") {
            Ok(Command::Quit)
        } else {
            Err(ControlError::UnknownCommand(t))
        }
    }
}

impl ControlError {
    pub open spec fn message_spec(&self) -> Seq<char> {
        match self {
            ControlError::UnknownCommand(t) => "unknown command: "@ + t@,
        }
    }

    /// The text that describes the error.
    pub fn message(&self) -> (r: String)
        ensures
            r@ == self.message_spec(),
    {
        match self {
            ControlError::UnknownCommand(t) => concat("unknown command: ", t.as_str()),
        }
    }
}


/// Each command's own word parses back to that command.
pub proof fn lemma_word_parses(c: Command)
    ensures
        Command::parse_spec(c.word()) == Some(c),
{
    reveal_strlit("enable");
    reveal_strlit("disable");
    reveal_strlit("toggle");
    reveal_strlit("status");
    reveal_strlit("quit");
    let w = c.word();
    assert(w.len() > 0 && !crate::text::is_ws(w[0]) && !crate::text::is_ws(w.last()));
    assert(crate::text::trim_start(w) == w);
    assert(trimmed(w) == w);
    assert("enable"@[0] != "toggle"@[0] && "enable"@[0] != "status"@[0] && "toggle"@[0] != "status"@[0]);
}

} // verus!
