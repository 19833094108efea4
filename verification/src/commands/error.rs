//! Why an input line names no command.

use vstd::prelude::*;

verus! {

/// The failures of command resolution.
#[derive(Debug, PartialEq, Eq)]
pub enum CommandError {
    /// No builtin has this name and the search path holds no such executable.
    NotFound(String),
}

/// A [`CommandError`] over plain sequences of characters.
pub enum CommandErrorView {
    NotFound(Seq<char>),
}

impl View for CommandError {
    type V = CommandErrorView;

    open spec fn view(&self) -> CommandErrorView {
        match self {
            CommandError::NotFound(name) => CommandErrorView::NotFound(name@),
        }
    }
}

} // verus!
