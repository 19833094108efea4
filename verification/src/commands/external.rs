//! External commands: the search for an executable along the search path.
//!
//! The search is a state machine. A [`Search`] names one file at a time,
//! the caller says what it found there as a [`FileProbe`], and
//! [`Search::advance`] either ends the resolution or moves on to the next
//! directory.

use vstd::prelude::*;
use vstd::string::StringExecFns;
use crate::commands::error::{CommandError, CommandErrorView};
use crate::commands::{Command, CommandView, Resolution, ResolutionView};
use crate::utils::path_utils::{candidate_of, candidate_path, path_separator, search_directories};
use crate::utils::separated::{lemma_split_on_nonempty, split_on};
use crate::utils::words::{words, words_of};

verus! {

/// What the caller found at one candidate path.
#[derive(Debug, PartialEq, Eq)]
pub struct FileProbe {
    /// The permission bits of the file, or `None` where no file can be read
    /// at the path.
    pub mode: Option<u32>,
    /// The canonical absolute path of the file, or `None` where the path
    /// cannot be resolved.
    pub canonical: Option<String>,
}

/// A [`FileProbe`] over plain sequences of characters.
pub struct FileProbeView {
    pub mode: Option<u32>,
    pub canonical: Option<Seq<char>>,
}

impl View for FileProbe {
    type V = FileProbeView;

    open spec fn view(&self) -> FileProbeView {
        FileProbeView {
            mode: self.mode,
            canonical: match self.canonical {
                Some(path) => Some(path@),
                None => None,
            },
        }
    }
}

/// The permission bits that let the owner, the group or anyone else execute
/// a file.
pub const EXECUTE_BITS: u32 = 0o111;

impl FileProbeView {
    /// The path to run where the probed file is a match: it exists, carries
    /// at least one execute permission bit and has a canonical path.
    pub open spec fn executable(self) -> Option<Seq<char>> {
        match (self.mode, self.canonical) {
            (Some(mode), Some(path)) => if mode & EXECUTE_BITS != 0 {
                Some(path)
            } else {
                None
            },
            _ => None,
        }
    }
}

impl FileProbe {
    /// The probe of a path at which there is nothing.
    pub fn missing() -> (probe: FileProbe)
        ensures
            probe@ == (FileProbeView { mode: None, canonical: None }),
    {
        FileProbe { mode: None, canonical: None }
    }

    /// The path to run where the probed file is a match.
    pub fn executable(self) -> (path: Option<String>)
        ensures
            text_view(path) == self@.executable(),
    {
        match (self.mode, self.canonical) {
            (Some(mode), Some(path)) => if mode & EXECUTE_BITS != 0 {
                Some(path)
            } else {
                None
            },
            _ => None,
        }
    }
}

/// The characters of an optional owned string.
pub open spec fn text_view(s: Option<String>) -> Option<Seq<char>> {
    match s {
        Some(text) => Some(text@),
        None => None,
    }
}

/// A search in progress: the command word, its argument string, the
/// directories of the search path and the one under test.
#[derive(Debug)]
pub struct Search {
    cmd: String,
    args: String,
    dirs: Vec<String>,
    next: usize,
}

/// A [`Search`] over plain sequences of characters.
pub struct SearchView {
    pub cmd: Seq<char>,
    pub args: Seq<char>,
    pub dirs: Seq<Seq<char>>,
    pub next: int,
}

impl View for Search {
    type V = SearchView;

    closed spec fn view(&self) -> SearchView {
        SearchView {
            cmd: self.cmd@,
            args: self.args@,
            dirs: self.dirs.deep_view(),
            next: self.next as int,
        }
    }
}

impl SearchView {
    /// A search always has a directory under test.
    pub open spec fn wf(self) -> bool {
        0 <= self.next < self.dirs.len()
    }

    /// The file that directory `at` of the search path would hold.
    pub open spec fn candidate_at(self, at: int) -> Seq<char> {
        candidate_of(self.dirs[at], self.cmd)
    }

    /// The file to probe next.
    pub open spec fn candidate(self) -> Seq<char> {
        self.candidate_at(self.next)
    }

    /// The resolution after `probe` was found at the candidate: a match ends
    /// it with the external command, a miss moves on to the next directory,
    /// and a miss in the last directory ends it with "not found".
    pub open spec fn advance(self, probe: FileProbeView) -> ResolutionView {
        match probe.executable() {
            Some(path) => ResolutionView::Done(
                Ok(CommandView::External { cmd: self.cmd, args: self.args, path }),
            ),
            None => if self.next + 1 < self.dirs.len() {
                ResolutionView::Probe(
                    SearchView {
                        cmd: self.cmd,
                        args: self.args,
                        dirs: self.dirs,
                        next: self.next + 1,
                    },
                )
            } else {
                ResolutionView::Done(Err(CommandErrorView::NotFound(self.cmd)))
            },
        }
    }
}

/// The first step of resolving a word that is no builtin: without a search
/// path it is not found, with one the search starts at its first directory.
pub open spec fn search_for(
    cmd: Seq<char>,
    args: Seq<char>,
    search_path: Option<Seq<char>>,
) -> ResolutionView {
    match search_path {
        None => ResolutionView::Done(Err(CommandErrorView::NotFound(cmd))),
        Some(path) => ResolutionView::Probe(
            SearchView { cmd, args, dirs: split_on(path, path_separator()), next: 0 },
        ),
    }
}

impl Search {
    #[verifier::type_invariant]
    spec fn inv(&self) -> bool {
        self.next < self.dirs.len()
    }

    /// The path of the file to probe next.
    pub fn candidate(&self) -> (path: String)
        ensures
            self@.wf(),
            path@ == self@.candidate(),
    {
        proof {
            use_type_invariant(self);
        }
        candidate_path(self.dirs[self.next].as_str(), self.cmd.as_str())
    }

    /// Takes what was found at the candidate and says how the resolution
    /// goes on.
    pub fn advance(self, probe: FileProbe) -> (r: Resolution)
        ensures
            self@.wf(),
            r@ == self@.advance(probe@),
    {
        proof {
            use_type_invariant(&self);
        }
        let Search { cmd, args, dirs, next } = self;
        match probe.executable() {
            Some(path) => Resolution::Done(Ok(Command::External { cmd, args, path })),
            None => if next + 1 < dirs.len() {
                Resolution::Probe(Search { cmd, args, dirs, next: next + 1 })
            } else {
                Resolution::Done(Err(CommandError::NotFound(cmd)))
            },
        }
    }
}

/// Starts the search for an external command.
pub fn parse_external_cmd(cmd: &str, args: &str, search_path: Option<&str>) -> (r: Resolution)
    ensures
        r@ == search_for(cmd@, args@, crate::commands::text_of(search_path)),
{
    match search_path {
        None => Resolution::Done(Err(CommandError::NotFound(String::from_str(cmd)))),
        Some(path) => {
            let dirs = search_directories(path);
            proof {
                lemma_split_on_nonempty(path@, path_separator());
            }
            Resolution::Probe(
                Search { cmd: String::from_str(cmd), args: String::from_str(args), dirs, next: 0 },
            )
        },
    }
}

/// The result of carrying a search through, where every probe is answered
/// by `files`, which says what is found at each path.
pub open spec fn search_result(
    search: SearchView,
    files: spec_fn(Seq<char>) -> FileProbeView,
) -> Result<CommandView, CommandErrorView>
    decreases search.dirs.len() - search.next,
{
    match search.advance(files(search.candidate())) {
        ResolutionView::Done(outcome) => outcome,
        ResolutionView::Probe(rest) => search_result(rest, files),
    }
}

/// The search order is the order of the search path: the search resolves to
/// the match in directory `at` where no directory before it holds a match,
/// whatever the directories after it hold.
pub proof fn lemma_first_match_wins(
    search: SearchView,
    files: spec_fn(Seq<char>) -> FileProbeView,
    at: int,
)
    requires
        search.wf(),
        search.next <= at < search.dirs.len(),
        files(search.candidate_at(at)).executable() is Some,
        forall|k: int|
            search.next <= k < at ==> files(#[trigger] search.candidate_at(k)).executable() is None,
    ensures
        search_result(search, files) == Ok::<CommandView, CommandErrorView>(
            CommandView::External {
                cmd: search.cmd,
                args: search.args,
                path: files(search.candidate_at(at)).executable()->0,
            },
        ),
    decreases at - search.next,
{
    if search.next < at {
        assert(files(search.candidate_at(search.next)).executable() is None);
        let rest = SearchView {
            cmd: search.cmd,
            args: search.args,
            dirs: search.dirs,
            next: search.next + 1,
        };
        assert forall|k: int| rest.next <= k < at implies files(
            #[trigger] rest.candidate_at(k),
        ).executable() is None by {
            assert(rest.candidate_at(k) == search.candidate_at(k));
        }
        assert(rest.candidate_at(at) == search.candidate_at(at));
        lemma_first_match_wins(rest, files, at);
    }
}

/// A search along a path on which no directory holds a match ends with
/// "not found" for the command word.
pub proof fn lemma_no_match_not_found(
    search: SearchView,
    files: spec_fn(Seq<char>) -> FileProbeView,
)
    requires
        search.wf(),
        forall|k: int|
            search.next <= k < search.dirs.len() ==> files(
                #[trigger] search.candidate_at(k),
            ).executable() is None,
    ensures
        search_result(search, files) == Err::<CommandView, CommandErrorView>(
            CommandErrorView::NotFound(search.cmd),
        ),
    decreases search.dirs.len() - search.next,
{
    assert(files(search.candidate_at(search.next)).executable() is None);
    if search.next + 1 < search.dirs.len() {
        let rest = SearchView {
            cmd: search.cmd,
            args: search.args,
            dirs: search.dirs,
            next: search.next + 1,
        };
        assert forall|k: int| rest.next <= k < rest.dirs.len() implies files(
            #[trigger] rest.candidate_at(k),
        ).executable() is None by {
            assert(rest.candidate_at(k) == search.candidate_at(k));
        }
        lemma_no_match_not_found(rest, files);
    }
}

/// A program to run and the arguments to hand to it.
#[derive(Debug, PartialEq, Eq)]
pub struct Invocation {
    /// The path of the executable.
    pub program: String,
    /// The arguments, in order.
    pub arguments: Vec<String>,
}

/// An [`Invocation`] over plain sequences of characters.
pub struct InvocationView {
    pub program: Seq<char>,
    pub arguments: Seq<Seq<char>>,
}

impl View for Invocation {
    type V = InvocationView;

    open spec fn view(&self) -> InvocationView {
        InvocationView { program: self.program@, arguments: self.arguments.deep_view() }
    }
}

/// The invocation that a command stands for: an external command runs its
/// resolved path with the words of its argument string as arguments, that is
/// the argument string split at its runs of whitespace, and none where the
/// argument string is empty. No other command runs anything.
pub open spec fn invocation_of(cmd: CommandView) -> Option<InvocationView> {
    match cmd {
        CommandView::External { args, path, .. } => Some(
            InvocationView { program: path, arguments: words_of(args) },
        ),
        _ => None,
    }
}

/// The view of an optional invocation.
pub open spec fn invocation_view(invocation: Option<Invocation>) -> Option<InvocationView> {
    match invocation {
        Some(i) => Some(i@),
        None => None,
    }
}

/// Prepares the run of an external command: the program at its resolved path
/// and, as arguments, the words of its argument string. `None` for a command
/// that is not external.
pub fn external_cmd(cmd: &Command) -> (invocation: Option<Invocation>)
    ensures
        invocation_view(invocation) == invocation_of(cmd@),
{
    match cmd {
        Command::External { args, path, .. } => Some(
            Invocation { program: path.clone(), arguments: words(args.as_str()) },
        ),
        _ => None,
    }
}

} // verus!
