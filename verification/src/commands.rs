//! Commands and the resolution of an input line to one of them.
//!
//! Resolution never touches the environment or the disk itself. The caller
//! hands in the search path, and where a file has to be looked at,
//! [`Command::from`] answers with a [`Search`] that names the file; the caller
//! probes it and hands the outcome to [`Search::advance`].

use vstd::prelude::*;
use vstd::slice::slice_subrange;
use crate::utils::separated::{join, joined};
use crate::utils::string_utils::{same_text, tokenize, tokens_of, trim, trimmed};
use error::{CommandError, CommandErrorView};
use exit::exit_code;
use external::{Search, SearchView};

pub mod cd;
pub mod echo;
pub mod error;
pub mod exit;
pub mod external;
pub mod pwd;
pub mod typee;

verus! {

/// What one input line asks the shell to do.
#[derive(Debug, PartialEq, Eq)]
pub enum Command {
    /// An empty line.
    Noop,
    /// Leave the shell with this status.
    Exit(i32),
    /// Print this text.
    Echo(String),
    /// Say what this name stands for.
    Type(String),
    /// Print the working directory.
    Pwd,
    /// Change the working directory to this path.
    Cd(String),
    /// Run the executable at `path`, found on the search path for `cmd`.
    External { cmd: String, args: String, path: String },
}

/// A [`Command`] over plain sequences of characters.
pub enum CommandView {
    Noop,
    Exit(i32),
    Echo(Seq<char>),
    Type(Seq<char>),
    Pwd,
    Cd(Seq<char>),
    External { cmd: Seq<char>, args: Seq<char>, path: Seq<char> },
}

impl View for Command {
    type V = CommandView;

    open spec fn view(&self) -> CommandView {
        match self {
            Command::Noop => CommandView::Noop,
            Command::Exit(code) => CommandView::Exit(*code),
            Command::Echo(text) => CommandView::Echo(text@),
            Command::Type(name) => CommandView::Type(name@),
            Command::Pwd => CommandView::Pwd,
            Command::Cd(target) => CommandView::Cd(target@),
            Command::External { cmd, args, path } => CommandView::External {
                cmd: cmd@,
                args: args@,
                path: path@,
            },
        }
    }
}

/// The view of a parse or resolution result.
pub open spec fn outcome_view(r: Result<Command, CommandError>) -> Result<
    CommandView,
    CommandErrorView,
> {
    match r {
        Ok(command) => Ok(command@),
        Err(error) => Err(error@),
    }
}

/// How far the resolution of a line has come.
#[derive(Debug)]
pub enum Resolution {
    /// The line is resolved.
    Done(Result<Command, CommandError>),
    /// The file that the search names has to be probed next.
    Probe(Search),
}

/// A [`Resolution`] over plain sequences of characters.
pub enum ResolutionView {
    Done(Result<CommandView, CommandErrorView>),
    Probe(SearchView),
}

impl View for Resolution {
    type V = ResolutionView;

    open spec fn view(&self) -> ResolutionView {
        match self {
            Resolution::Done(outcome) => ResolutionView::Done(outcome_view(*outcome)),
            Resolution::Probe(search) => ResolutionView::Probe(search@),
        }
    }
}

/// The separator between rejoined arguments.
pub open spec fn argument_separator() -> Seq<char> {
    seq![' ']
}

/// The builtin that `word` names, applied to the argument string `args`.
/// Names are case-sensitive.
pub open spec fn builtin_of(word: Seq<char>, args: Seq<char>) -> Option<CommandView> {
    if word == "echo"@ {
        Some(CommandView::Echo(args))
    } else if word == "exit"@ {
        Some(CommandView::Exit(exit_code(args)))
    } else if word == "type"@ {
        Some(CommandView::Type(trimmed(args)))
    } else if word == "pwd"@ {
        Some(CommandView::Pwd)
    } else if word == "cd"@ {
        Some(CommandView::Cd(args))
    } else {
        None
    }
}

/// The first step of resolving `input` with the search path `search_path`.
///
/// The line is trimmed and split into tokens. No token makes a no-op. The
/// first token is the command word, the others, rejoined with single spaces,
/// are its argument string. A builtin is resolved at once. Any other word is
/// not found where there is no search path, and otherwise starts a search at
/// the first directory of the path.
pub open spec fn resolution_of(input: Seq<char>, search_path: Option<Seq<char>>) -> ResolutionView {
    let tokens = tokens_of(trimmed(input));
    if tokens.len() == 0 {
        ResolutionView::Done(Ok(CommandView::Noop))
    } else {
        let word = tokens.first();
        let args = joined(tokens.drop_first(), argument_separator());
        match builtin_of(word, args) {
            Some(command) => ResolutionView::Done(Ok(command)),
            None => external::search_for(word, args, search_path),
        }
    }
}

/// The characters of an optional string.
pub open spec fn text_of(s: Option<&str>) -> Option<Seq<char>> {
    match s {
        Some(text) => Some(text@),
        None => None,
    }
}

impl Command {
    /// Resolves one input line as far as that can be done without looking at
    /// the disk. `search_path` is the value of the search-path variable, or
    /// `None` where it is not set.
    pub fn from(input: &str, search_path: Option<&str>) -> (r: Resolution)
        ensures
            r@ == resolution_of(input@, text_of(search_path)),
    {
        let tokens = tokenize(trim(input));
        if tokens.len() == 0 {
            return Resolution::Done(Ok(Command::Noop));
        }
        let rest = slice_subrange(tokens.as_slice(), 1, tokens.len());
        assert(rest.deep_view() =~= tokens.deep_view().drop_first());
        proof {
            reveal_strlit(" ");
            assert(" "@ =~= argument_separator());
        }
        let args = join(rest, " ");
        let word = tokens[0].as_str();
        assert(word@ == tokens.deep_view().first());
        if same_text(word, "echo") {
            Resolution::Done(Ok(Command::Echo(args)))
        } else if same_text(word, "exit") {
            Resolution::Done(exit::parse_exit_cmd(args.as_str()))
        } else if same_text(word, "type") {
            Resolution::Done(typee::parse_type_cmd(args.as_str()))
        } else if same_text(word, "pwd") {
            Resolution::Done(pwd::parse_pwd_cmd())
        } else if same_text(word, "cd") {
            Resolution::Done(cd::parse_cd_cmd(args.as_str()))
        } else {
            external::parse_external_cmd(word, args.as_str(), search_path)
        }
    }
}

} // verus!
