//! The `exit` builtin.

use vstd::prelude::*;
use crate::commands::error::{CommandError, CommandErrorView};
use crate::commands::{outcome_view, Command, CommandView};
use crate::utils::number::{decimal_i32, parse_i32};

verus! {

/// The status that `exit` leaves with: 0 without an argument, the argument
/// where it is a 32-bit decimal integer, and 1 for anything else.
pub open spec fn exit_code(args: Seq<char>) -> i32 {
    if args.len() == 0 {
        0
    } else {
        match decimal_i32(args) {
            Some(code) => code,
            None => 1,
        }
    }
}

/// Parses the argument string of `exit`. A malformed status is no error.
pub fn parse_exit_cmd(args: &str) -> (r: Result<Command, CommandError>)
    ensures
        outcome_view(r) == Ok::<CommandView, CommandErrorView>(
            CommandView::Exit(exit_code(args@)),
        ),
{
    let value = if args.is_empty() {
        0
    } else {
        match parse_i32(args) {
            Some(code) => code,
            None => 1,
        }
    };
    Ok(Command::Exit(value))
}

} // verus!
