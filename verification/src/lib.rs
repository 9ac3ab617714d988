//! A line-oriented text search engine: given a content buffer and a query,
//! it returns the lines that match, in their original order. Matching is
//! literal or by regular expression, case-sensitive or not, and the scan over
//! the lines is fanned out across a worker pool without disturbing the order
//! of the results.

use vstd::prelude::*;

pub mod engine;
pub mod laws;
pub mod matcher;
pub mod text;

pub use engine::search;

verus! {

/// How a query is interpreted when it is held against a line.
#[derive(Clone, Copy, Debug, PartialEq, Eq, Structural)]
pub enum MatchMode {
    LiteralCaseSensitive,
    LiteralCaseInsensitive,
    RegexCaseSensitive,
    RegexCaseInsensitive,
}

/// The error a search can end with: the query was to be compiled as a regular
/// expression and its syntax is invalid. A line that matches nothing is not an
/// error, and file access is the caller's business.
#[derive(Clone, Copy, Debug, PartialEq, Eq, Structural)]
pub enum SearchError {
    Pattern,
}

/// A parsed command line: what to search for, where, and under which flags.
/// Reading the file behind `file_path` is the caller's business; the engine
/// itself only consumes `query` and the two flags.
pub struct Args {
    pub query: String,
    pub file_path: String,
    pub ignore_case: bool,
    pub use_regex: bool,
}

/// The match mode selected by the two command-line flags.
pub open spec fn mode_of(ignore_case: bool, use_regex: bool) -> MatchMode {
    if use_regex {
        if ignore_case {
            MatchMode::RegexCaseInsensitive
        } else {
            MatchMode::RegexCaseSensitive
        }
    } else {
        if ignore_case {
            MatchMode::LiteralCaseInsensitive
        } else {
            MatchMode::LiteralCaseSensitive
        }
    }
}

impl MatchMode {
    /// Selects the mode that the two flags of the command line call for.
    pub fn from_flags(ignore_case: bool, use_regex: bool) -> (m: MatchMode)
        ensures
            m == mode_of(ignore_case, use_regex),
    {
        if use_regex {
            if ignore_case {
                MatchMode::RegexCaseInsensitive
            } else {
                MatchMode::RegexCaseSensitive
            }
        } else {
            if ignore_case {
                MatchMode::LiteralCaseInsensitive
            } else {
                MatchMode::LiteralCaseSensitive
            }
        }
    }

    /// Whether the query is taken as a regular expression under this mode.
    pub open spec fn is_regex(self) -> bool {
        self == MatchMode::RegexCaseSensitive || self == MatchMode::RegexCaseInsensitive
    }

    /// Whether letter case is ignored under this mode.
    pub open spec fn is_case_insensitive(self) -> bool {
        self == MatchMode::LiteralCaseInsensitive || self == MatchMode::RegexCaseInsensitive
    }
}

/// The compute half of a grep run: searches content that the caller already
/// acquired and validated, under the query and flags of the parsed command
/// line. Same outcome as `search` on the fields of `args`.
pub fn grep_content(args: &Args, content: &str) -> (r: Result<Vec<String>, SearchError>)
    ensures
        r is Ok <==> engine::search_spec(
            content@,
            args.query@,
            args.ignore_case,
            args.use_regex,
        ) is Ok,
        r is Ok ==> (r->Ok_0).deep_view() == engine::search_spec(
            content@,
            args.query@,
            args.ignore_case,
            args.use_regex,
        )->Ok_0,
        r is Err ==> r->Err_0 == engine::search_spec(
            content@,
            args.query@,
            args.ignore_case,
            args.use_regex,
        )->Err_0,
{
    engine::search(content, args.query.as_str(), args.ignore_case, args.use_regex)
}

} // verus!
