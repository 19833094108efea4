//! The `cd` builtin.

use vstd::prelude::*;
use vstd::string::StringExecFns;
use crate::commands::error::{CommandError, CommandErrorView};
use crate::commands::{outcome_view, Command, CommandView};

verus! {

/// Parses the argument string of `cd`: the target is the argument string as
/// it stands.
pub fn parse_cd_cmd(args: &str) -> (r: Result<Command, CommandError>)
    ensures
        outcome_view(r) == Ok::<CommandView, CommandErrorView>(CommandView::Cd(args@)),
{
    Ok(Command::Cd(String::from_str(args)))
}

} // verus!
