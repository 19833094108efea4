//! The `echo` builtin.

use vstd::prelude::*;
use crate::commands::error::{CommandError, CommandErrorView};
use crate::commands::{argument_separator, outcome_view, Command, CommandView};
use crate::utils::separated::{join, joined};
use crate::utils::string_utils::{tokenize, tokens_of};

verus! {

/// The text that `echo` prints for the raw argument string `args`: its
/// tokens, with quotes and escapes resolved, separated by single spaces.
pub open spec fn echo_text(args: Seq<char>) -> Seq<char> {
    joined(tokens_of(args), argument_separator())
}

/// Parses the argument string of `echo`.
pub fn parse_echo_cmd(args: &str) -> (r: Result<Command, CommandError>)
    ensures
        outcome_view(r) == Ok::<CommandView, CommandErrorView>(CommandView::Echo(echo_text(args@))),
{
    let tokens = tokenize(args);
    let parts = tokens.as_slice();
    proof {
        reveal_strlit(" ");
        assert(" "@ =~= argument_separator());
        assert(parts.deep_view() =~= tokens.deep_view());
    }
    let processed = join(parts, " ");
    Ok(Command::Echo(processed))
}

} // verus!
