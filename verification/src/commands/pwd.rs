//! The `pwd` builtin.

use vstd::prelude::*;
use crate::commands::error::{CommandError, CommandErrorView};
use crate::commands::{outcome_view, Command, CommandView};

verus! {

/// Parses `pwd`, which takes no argument.
pub fn parse_pwd_cmd() -> (r: Result<Command, CommandError>)
    ensures
        outcome_view(r) == Ok::<CommandView, CommandErrorView>(CommandView::Pwd),
{
    Ok(Command::Pwd)
}

} // verus!
