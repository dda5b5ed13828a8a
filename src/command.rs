//! Console commands read from standard input.
use vstd::prelude::*;
use crate::text::same_text;

verus! {

#[derive(Clone, Copy, Debug, PartialEq, Eq, Structural)]
pub enum InputCommand {
    Restart,
    ListServers,
    Exit,
    Help,
    Invalid,
    NoInput,
}

impl Default for InputCommand {
    fn default() -> (c: InputCommand)
        ensures
            c == InputCommand::NoInput,
    {
        InputCommand::NoInput
    }
}

/// Whether `c` is white space as `char::is_whitespace` defines it (the
/// Unicode `White_Space` property).
pub open spec fn is_space(c: char) -> bool {
    ||| '\t' <= c <= '\r'
    ||| c == ' '
    ||| c == '\u{85}'
    ||| c == '\u{a0}'
    ||| c == '\u{1680}'
    ||| '\u{2000}' <= c <= '\u{200a}'
    ||| c == '\u{2028}'
    ||| c == '\u{2029}'
    ||| c == '\u{202f}'
    ||| c == '\u{205f}'
    ||| c == '\u{3000}'
}

pub open spec fn trim_start(s: Seq<char>) -> Seq<char>
    decreases s.len(),
{
    if s.len() > 0 && is_space(s[0]) {
        trim_start(s.skip(1))
    } else {
        s
    }
}

pub open spec fn trim_end(s: Seq<char>) -> Seq<char>
    decreases s.len(),
{
    if s.len() > 0 && is_space(s.last()) {
        trim_end(s.drop_last())
    } else {
        s
    }
}

/// `s` without leading and trailing white space.
pub open spec fn trimmed(s: Seq<char>) -> Seq<char> {
    trim_end(trim_start(s))
}

/// Relies on `str::trim`: leading and trailing white space removed.
#[verifier::external_body]
fn trim_text(s: &str) -> (r: &str)
    ensures
        r@ == trimmed(s@),
{
    s.trim()
}

/// The command that an already trimmed input line names.
pub open spec fn command_for(t: Seq<char>) -> InputCommand {
    if t.len() == 0 {
        InputCommand::NoInput
    } else if t == "restart"@ {
        InputCommand::Restart
    } else if t == "list-servers"@ {
        InputCommand::ListServers
    } else if t == "exit"@ || t == "stop"@ {
        InputCommand::Exit
    } else if t == "help"@ {
        InputCommand::Help
    } else {
        InputCommand::Invalid
    }
}

/// The command an already trimmed input line names.
pub fn command_of(t: &str) -> (c: InputCommand)
    ensures
        c == command_for(t@),
{
    if t.is_empty() {
        InputCommand::NoInput
    } else if same_text(t, "restart") {
        InputCommand::Restart
    } else if same_text(t, "list-servers") {
        InputCommand::ListServers
    } else if same_text(t, "exit") || same_text(t, "stop") {
        InputCommand::Exit
    } else if same_text(t, "help") {
        InputCommand::Help
    } else {
        InputCommand::Invalid
    }
}

/// The command a raw console line names, white space around it ignored.
pub fn parse_line(line: &str) -> (c: InputCommand)
    ensures
        c == command_for(trimmed(line@)),
{
    command_of(trim_text(line))
}

} // verus!
