//! The `type` builtin.

use vstd::prelude::*;
use vstd::string::StringExecFns;
use crate::commands::error::{CommandError, CommandErrorView};
use crate::commands::{outcome_view, Command, CommandView};
use crate::utils::string_utils::{trim, trimmed};

verus! {

/// What `type` has to say about a name.
#[derive(Debug, PartialEq, Eq)]
pub enum TypeReport {
    /// Nothing: no name was asked about.
    Silent,
    /// A line for standard output.
    Known(String),
    /// A line for standard error.
    Unknown(String),
}

/// A [`TypeReport`] over plain sequences of characters.
pub enum TypeReportView {
    Silent,
    Known(Seq<char>),
    Unknown(Seq<char>),
}

impl View for TypeReport {
    type V = TypeReportView;

    open spec fn view(&self) -> TypeReportView {
        match self {
            TypeReport::Silent => TypeReportView::Silent,
            TypeReport::Known(line) => TypeReportView::Known(line@),
            TypeReport::Unknown(line) => TypeReportView::Unknown(line@),
        }
    }
}

/// The report about `command`, given what `command` resolves to as a line of
/// its own: an external command is reported with its path, anything else
/// that resolves as a shell builtin, and the rest as not found.
pub open spec fn type_report_of(
    command: Seq<char>,
    resolved: Result<CommandView, CommandErrorView>,
) -> TypeReportView {
    if command.len() == 0 {
        TypeReportView::Silent
    } else {
        match resolved {
            Ok(CommandView::External { path, .. }) => TypeReportView::Known(
                command + " is "@ + path,
            ),
            Ok(_) => TypeReportView::Known(command + " is a shell builtin"@),
            Err(CommandErrorView::NotFound(_)) => TypeReportView::Unknown(
                command + ": not found"@,
            ),
        }
    }
}

/// Says what `command` stands for, where `resolved` is what it resolves to
/// as a line of its own.
pub fn type_cmd(command: &str, resolved: &Result<Command, CommandError>) -> (report: TypeReport)
    ensures
        report@ == type_report_of(command@, outcome_view(*resolved)),
{
    if command.is_empty() {
        return TypeReport::Silent;
    }
    let mut line = String::from_str(command);
    match resolved {
        Ok(Command::External { path, .. }) => {
            line.append(" is ");
            line.append(path.as_str());
            TypeReport::Known(line)
        },
        Ok(_) => {
            line.append(" is a shell builtin");
            TypeReport::Known(line)
        },
        Err(CommandError::NotFound(_)) => {
            line.append(": not found");
            TypeReport::Unknown(line)
        },
    }
}

/// Parses the argument string of `type`: the name asked about is the
/// argument string without surrounding whitespace.
pub fn parse_type_cmd(args: &str) -> (r: Result<Command, CommandError>)
    ensures
        outcome_view(r) == Ok::<CommandView, CommandErrorView>(CommandView::Type(trimmed(args@))),
{
    Ok(Command::Type(String::from_str(trim(args))))
}

} // verus!
