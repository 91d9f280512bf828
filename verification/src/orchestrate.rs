//! What a run does: the order in which a request is checked, where the
//! input comes from, and how the failure of one item bears on the rest.

use crate::error::{LoadError, PagesError};
use crate::pages::{parse_pages, selection, strictly_increasing};
use vstd::prelude::*;

verus! {

/// Why a request is turned down before anything is loaded.
#[derive(Clone, Copy, Debug, PartialEq, Eq, Structural)]
pub enum ConfigError {
    /// One output file was named for more than one input file.
    MultipleFilesWithOutput,
    /// Pages were selected for more than one input file.
    MultipleFilesWithPages,
    /// The page selection cannot be read.
    InvalidPages(PagesError),
    /// There is neither a file nor piped input.
    NoInput,
}

/// Where the input comes from.
#[derive(Clone, Copy, Debug, PartialEq, Eq, Structural)]
pub enum InputSource {
    /// From what is piped in.
    Stdin,
    /// From the files named.
    Files,
}

/// What a run is to do.
pub enum RunPlan {
    /// Remove the pictures on display and stop.
    Clear,
    /// Load the input from `source` and show it; `pages` are the pages
    /// selected, if any were.
    Load { source: InputSource, pages: Option<Vec<u16>> },
    /// Stop with an error.
    Reject(ConfigError),
}

/// How one input item ended.
#[derive(Clone, Copy, Debug, PartialEq, Eq, Structural)]
pub enum Outcome {
    /// It was shown, as a picture or as text.
    Shown,
    /// Nothing could decode it.
    DecodeFailure,
    /// It was decoded but could not be encoded or written.
    RenderFailure,
}

/// Piped input is used where there is any, unless a terminal is forced.
pub open spec fn uses_stdin(input_available: bool, tty: bool) -> bool {
    input_available && !tty
}

/// The first reason to turn a request down, if there is one: several files
/// for one output; several files with a page selection; a page selection
/// that cannot be read; no input at all.
pub open spec fn rejection(
    input_available: bool,
    tty: bool,
    has_output: bool,
    file_count: nat,
    pages: Option<Seq<char>>,
) -> Option<ConfigError> {
    let several = !uses_stdin(input_available, tty) && file_count > 1;
    if has_output && several {
        Some(ConfigError::MultipleFilesWithOutput)
    } else if pages is Some && several {
        Some(ConfigError::MultipleFilesWithPages)
    } else if pages is Some && selection(pages->0) is Err {
        Some(ConfigError::InvalidPages(selection(pages->0)->Err_0))
    } else if !uses_stdin(input_available, tty) && file_count == 0 {
        Some(ConfigError::NoInput)
    } else {
        None
    }
}

/// The set of pages that a request selects; `None` where it selects none
/// in particular.
pub open spec fn selected_pages(pages: Option<Seq<char>>) -> Option<Set<u16>> {
    match pages {
        Some(text) => match selection(text) {
            Ok(set) => if set == Set::<u16>::empty() {
                None
            } else {
                Some(set)
            },
            Err(_) => None,
        },
        None => None,
    }
}

/// Plans a run. Clearing comes before everything else; then the request is
/// checked; then piped input is preferred to files.
pub fn plan_run(
    clear: bool,
    input_available: bool,
    tty: bool,
    has_output: bool,
    file_count: usize,
    pages: Option<&str>,
) -> (plan: RunPlan)
    ensures
        match plan {
            RunPlan::Clear => clear,
            RunPlan::Reject(e) => !clear && rejection(
                input_available,
                tty,
                has_output,
                file_count as nat,
                match pages {
                    Some(text) => Some(text@),
                    None => None,
                },
            ) == Some(e),
            RunPlan::Load { source, pages: list } => {
                let text: Option<Seq<char>> = match pages {
                    Some(text) => Some(text@),
                    None => None,
                };
                &&& !clear
                &&& rejection(input_available, tty, has_output, file_count as nat, text) is None
                &&& source == (if uses_stdin(input_available, tty) {
                    InputSource::Stdin
                } else {
                    InputSource::Files
                })
                &&& match list {
                    Some(v) => selected_pages(text) == Some(v@.to_set()) && strictly_increasing(
                        v@,
                    ),
                    None => selected_pages(text) is None,
                }
            },
        },
{
    if clear {
        return RunPlan::Clear;
    }
    let use_stdin: bool = input_available && !tty;
    let several: bool = !use_stdin && file_count > 1;
    if has_output && several {
        return RunPlan::Reject(ConfigError::MultipleFilesWithOutput);
    }
    let list: Option<Vec<u16>> = match pages {
        Some(text) => {
            if several {
                return RunPlan::Reject(ConfigError::MultipleFilesWithPages);
            }
            match parse_pages(text) {
                Ok(list) => {
                    proof {
                        if list is Some {
                            assert(list->0@.to_set().contains(list->0@[0]));
                        }
                    }
                    list
                },
                Err(e) => {
                    return RunPlan::Reject(ConfigError::InvalidPages(e));
                },
            }
        },
        None => None,
    };
    if use_stdin {
        RunPlan::Load { source: InputSource::Stdin, pages: list }
    } else if file_count > 0 {
        RunPlan::Load { source: InputSource::Files, pages: list }
    } else {
        RunPlan::Reject(ConfigError::NoInput)
    }
}

/// Whether input that failed to load is shown as plain text instead: only
/// where nothing could decode it and no output file is asked for.
pub fn shows_as_text(error: LoadError, has_output: bool) -> (r: bool)
    ensures
        r == (!has_output && error == LoadError::DecodeFailed),
{
    !has_output && error == LoadError::DecodeFailed
}

/// The exit status over all items: 0 where each was shown, 1 otherwise. A
/// failed item does not stop the items after it.
pub fn exit_code(outcomes: &[Outcome]) -> (code: i32)
    ensures
        code == 0 || code == 1,
        code == 0 <==> forall|i: int| 0 <= i < outcomes@.len() ==> outcomes@[i] == Outcome::Shown,
{
    let mut i: usize = 0;
    while i < outcomes.len()
        invariant
            i <= outcomes@.len(),
            forall|j: int| 0 <= j < i ==> outcomes@[j] == Outcome::Shown,
        decreases outcomes@.len() - i,
    {
        if outcomes[i] != Outcome::Shown {
            return 1;
        }
        i += 1;
    }
    0
}

impl ConfigError {
    /// What went wrong, in words.
    pub open spec fn description(self) -> Seq<char> {
        match self {
            ConfigError::MultipleFilesWithOutput => "Cannot specify multiple files with --output"@,
            ConfigError::MultipleFilesWithPages => "Cannot specify multiple files with --pages"@,
            ConfigError::InvalidPages(_) => "Invalid page range"@,
            ConfigError::NoInput => "No input files provided and no data piped to stdin."@,
        }
    }

    /// A short description for the user.
    pub fn message(&self) -> (m: &'static str)
        ensures
            m@ == self.description(),
    {
        match self {
            ConfigError::MultipleFilesWithOutput => "Cannot specify multiple files with --output",
            ConfigError::MultipleFilesWithPages => "Cannot specify multiple files with --pages",
            ConfigError::InvalidPages(_) => "Invalid page range",
            ConfigError::NoInput => "No input files provided and no data piped to stdin.",
        }
    }
}

} // verus!
