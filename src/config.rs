//! The parameters of one search run, taken from command-line arguments.
use vstd::prelude::*;

use crate::{select_lines, selected, views};

verus! {

/// Why a run's parameters could not be assembled.
#[derive(Debug, Clone, Copy, PartialEq, Eq, Structural)]
pub enum ConfigError {
    /// No search term was given.
    MissingQuery,
    /// A search term was given but no file path.
    MissingFile,
}

impl ConfigError {
    /// The text shown to the user for this error.
    pub fn message(&self) -> (r: &'static str)
        ensures
            *self == ConfigError::MissingQuery ==> r@ == "No query"@,
            *self == ConfigError::MissingFile ==> r@ == "No file"@,
    {
        match self {
            ConfigError::MissingQuery => "No query",
            ConfigError::MissingFile => "No file",
        }
    }
}

/// One search run: the term, the file to search and whether case is ignored.
pub struct Config {
    needle: String,
    haystack: String,
    ignore_case: bool,
}

impl Config {
    /// The search term.
    pub closed spec fn needle_view(&self) -> Seq<char> {
        self.needle@
    }

    /// The path of the file to search.
    pub closed spec fn haystack_view(&self) -> Seq<char> {
        self.haystack@
    }

    /// Whether matching ignores ASCII case.
    pub closed spec fn ignores_case(&self) -> bool {
        self.ignore_case
    }

    /// Assembles a run from command-line arguments: the first is the program's
    /// name and is skipped, the second is the search term, the third the file.
    /// Later arguments are ignored. `ignore_case` is decided by the caller (from
    /// the environment).
    pub fn build(args: Vec<String>, ignore_case: bool) -> (r: Result<Config, ConfigError>)
        ensures
            args@.len() < 2 <==> r == Err::<Config, ConfigError>(ConfigError::MissingQuery),
            args@.len() == 2 <==> r == Err::<Config, ConfigError>(ConfigError::MissingFile),
            args@.len() >= 3 <==> r is Ok,
            r is Ok ==> {
                &&& r->Ok_0.needle_view() == args@[1]@
                &&& r->Ok_0.haystack_view() == args@[2]@
                &&& r->Ok_0.ignores_case() == ignore_case
            },
    {
        if args.len() < 2 {
            return Err(ConfigError::MissingQuery);
        }
        if args.len() < 3 {
            return Err(ConfigError::MissingFile);
        }
        let needle = args[1].clone();
        let haystack = args[2].clone();
        Ok(Config { needle, haystack, ignore_case })
    }

    /// The search term.
    pub fn needle(&self) -> (r: &str)
        ensures
            r@ == self.needle_view(),
    {
        self.needle.as_str()
    }

    /// The path of the file to search.
    pub fn haystack(&self) -> (r: &str)
        ensures
            r@ == self.haystack_view(),
    {
        self.haystack.as_str()
    }

    /// Whether matching ignores ASCII case.
    pub fn ignore_case(&self) -> (r: bool)
        ensures
            r == self.ignores_case(),
    {
        self.ignore_case
    }

    /// The lines of `contents` (the file's text) that this run prints, in
    /// order: the case-insensitive matches when case is ignored, else the
    /// exact ones.
    pub fn matching_lines<'a>(&self, contents: &'a str) -> (r: Vec<&'a str>)
        ensures
            views(r@) == selected(self.needle_view(), contents@, self.ignores_case()),
    {
        select_lines(self.needle.as_str(), contents, self.ignore_case)
    }
}

} // verus!
