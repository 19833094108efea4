//! A keyword parser for the interactive loop: a line is told apart by the
//! builtin name it holds, without any quoting.

use vstd::prelude::*;
use vstd::string::StringExecFns;
use crate::utils::string_utils::{trim, trimmed};
use crate::utils::substring::{contains, occurs_at, occurs_in, skip_chars, starts_with};

verus! {

/// The names that the interactive loop knows as builtins.
pub const BUILT_IN_COMMANDS: [&'static str; 3] = ["echo", "exit", "type"];

/// What a line asks for.
#[derive(Debug, PartialEq, Eq)]
pub enum Command {
    /// Leave the shell.
    ExitCommand,
    /// Print `display`.
    EchoCommand { display: String },
    /// Say what `command_name` stands for.
    TypeCommand { command_name: String },
    /// Anything else.
    CommandNotFound,
}

/// A [`Command`] over plain sequences of characters.
pub enum CommandView {
    ExitCommand,
    EchoCommand { display: Seq<char> },
    TypeCommand { command_name: Seq<char> },
    CommandNotFound,
}

impl View for Command {
    type V = CommandView;

    open spec fn view(&self) -> CommandView {
        match self {
            Command::ExitCommand => CommandView::ExitCommand,
            Command::EchoCommand { display } => CommandView::EchoCommand { display: display@ },
            Command::TypeCommand { command_name } => CommandView::TypeCommand {
                command_name: command_name@,
            },
            Command::CommandNotFound => CommandView::CommandNotFound,
        }
    }
}

/// The number of characters of `echo ` and of `type `.
pub const KEYWORD_WIDTH: usize = 5;

/// The command that a line stands for. The line is trimmed first. A line
/// that holds `exit` anywhere leaves the shell. Otherwise a line that begins
/// with `echo ` or `type ` hands what follows to that builtin.
pub open spec fn command_of(input: Seq<char>) -> CommandView {
    let line = trimmed(input);
    if occurs_in("exit"@, line) {
        CommandView::ExitCommand
    } else if occurs_at("echo "@, line, 0) {
        CommandView::EchoCommand { display: line.skip(KEYWORD_WIDTH as int) }
    } else if occurs_at("type "@, line, 0) {
        CommandView::TypeCommand { command_name: line.skip(KEYWORD_WIDTH as int) }
    } else {
        CommandView::CommandNotFound
    }
}

impl Command {
    /// Tells the command of one input line.
    pub fn from_input(input: &str) -> (command: Command)
        ensures
            command@ == command_of(input@),
    {
        let input = trim(input);
        if contains(input, "exit") {
            return Command::ExitCommand;
        }
        proof {
            reveal_strlit("echo ");
            reveal_strlit("type ");
        }
        if starts_with(input, "echo ") {
            return Command::EchoCommand {
                display: String::from_str(skip_chars(input, KEYWORD_WIDTH)),
            };
        }
        if starts_with(input, "type ") {
            return Command::TypeCommand {
                command_name: String::from_str(skip_chars(input, KEYWORD_WIDTH)),
            };
        }
        Command::CommandNotFound
    }
}

} // verus!
