//! The predicate compiler: a query and a match mode become a `Matcher`, a
//! pure per-line predicate that is compiled once per search and shared,
//! unchanged, by every worker of the scan. Regular-expression matching and
//! Unicode lowercasing are done by outside code behind named results.
//!
//! Case is ignored, in the literal modes, by lowering both sides with
//! `str::to_lowercase`: Unicode-aware, locale-independent lowercasing, not
//! full case folding. The query is lowered once at compile time, each line
//! once at evaluation time.

use vstd::prelude::*;

use crate::text::contains_seq;
use crate::{MatchMode, SearchError};

verus! {

/// What `str::to_lowercase` returns: the Unicode lowercase mapping of a
/// character sequence, a function of the characters alone.
pub uninterp spec fn lower_of(s: Seq<char>) -> Seq<char>;

/// Whether `regex::Regex::new` accepts a pattern source: a function of the
/// pattern alone.
pub uninterp spec fn regex_ok(pattern: Seq<char>) -> bool;

/// What `regex::Regex::is_match` returns for a compiled pattern source and a
/// haystack: a function of the two character sequences alone.
pub uninterp spec fn regex_match(pattern: Seq<char>, hay: Seq<char>) -> bool;

/// Relies on `str::to_lowercase`: its result depends on the characters alone,
/// and mapping no characters yields no characters.
#[verifier::external_body]
fn to_lower(s: &str) -> (r: String)
    ensures
        r@ == lower_of(s@),
        s@.len() == 0 ==> r@.len() == 0,
{
    s.to_lowercase()
}

#[verifier::external_type_specification]
#[verifier::external_body]
pub struct ExRegex(regex::Regex);

/// A compiled regular expression together with the pattern source it was
/// compiled from. Only `regex_new` constructs one, inside its trusted body,
/// so the ghost pattern is always the very source the regex was compiled
/// from: the pairing that the contract of `regex_is_match` rests on cannot
/// be written by verified code.
pub struct RegexHandle {
    re: regex::Regex,
    pattern: Ghost<Seq<char>>,
}

impl RegexHandle {
    /// The pattern source this handle was compiled from.
    pub closed spec fn pat(self) -> Seq<char> {
        self.pattern@
    }
}

/// Relies on `regex::Regex::new`: whether a pattern source compiles depends
/// on the source alone. The handle returned carries that source as its
/// ghost pattern.
#[verifier::external_body]
fn regex_new(pattern: &str) -> (r: Option<RegexHandle>)
    ensures
        r is Some <==> regex_ok(pattern@),
        r is Some ==> r->0.pat() == pattern@,
{
    match regex::Regex::new(pattern) {
        Ok(re) => Some(RegexHandle { re, pattern: Ghost(pattern@) }),
        Err(_) => None,
    }
}

/// Relies on `regex::Regex::is_match`: true if and only if the pattern
/// matches anywhere in the haystack, a function of pattern source and
/// haystack alone. The handle's ghost pattern is the source its regex was
/// compiled from, by construction in `regex_new`.
#[verifier::external_body]
fn regex_is_match(handle: &RegexHandle, hay: &str) -> (r: bool)
    ensures
        r == regex_match(handle.pat(), hay@),
{
    handle.re.is_match(hay)
}

/// The case-insensitivity modifier that is prepended to a pattern when a
/// regex search ignores case.
pub open spec fn ci_marker() -> Seq<char> {
    seq!['(', '?', 'i', ')']
}

/// The pattern source actually handed to the regex compiler: the query, with
/// the case-insensitivity modifier prepended when case is ignored.
pub open spec fn effective_pattern(query: Seq<char>, ignore_case: bool) -> Seq<char> {
    if ignore_case {
        ci_marker() + query
    } else {
        query
    }
}

/// The match predicate itself: whether one line matches the query under a
/// mode. Literal modes are substring containment, the case-insensitive one
/// after lowering both sides; regex modes follow the regex engine on the
/// effective pattern.
pub open spec fn line_matches(mode: MatchMode, query: Seq<char>, line: Seq<char>) -> bool {
    match mode {
        MatchMode::LiteralCaseSensitive => contains_seq(line, query),
        MatchMode::LiteralCaseInsensitive => contains_seq(lower_of(line), lower_of(query)),
        MatchMode::RegexCaseSensitive => regex_match(query, line),
        MatchMode::RegexCaseInsensitive => regex_match(effective_pattern(query, true), line),
    }
}

/// Whether compiling a query under a mode succeeds: literal queries always
/// compile; a regex query compiles exactly when the regex engine accepts its
/// effective pattern.
pub open spec fn compile_ok(mode: MatchMode, query: Seq<char>) -> bool {
    mode.is_regex() ==> regex_ok(effective_pattern(query, mode.is_case_insensitive()))
}

enum MatcherSel {
    Lit { needle: String },
    LitCi { needle: String },
    Re { handle: RegexHandle },
    ReCi { handle: RegexHandle },
}

/// A compiled predicate: derived once from a query and a mode, immutable,
/// and evaluated independently on each line. It holds no mutable state, so
/// workers share it without locks.
pub struct Matcher {
    sel: MatcherSel,
    query: Ghost<Seq<char>>,
}

impl Matcher {
    #[verifier::type_invariant]
    spec fn wf(self) -> bool {
        match self.sel {
            MatcherSel::Lit { needle } => needle@ == self.query@,
            MatcherSel::LitCi { needle } => needle@ == lower_of(self.query@),
            MatcherSel::Re { handle } => handle.pat() == self.query@,
            MatcherSel::ReCi { handle } => handle.pat() == effective_pattern(self.query@, true),
        }
    }

    /// The query this predicate was compiled from.
    pub closed spec fn query(self) -> Seq<char> {
        self.query@
    }

    /// The mode this predicate was compiled for.
    pub closed spec fn mode(self) -> MatchMode {
        match self.sel {
            MatcherSel::Lit { .. } => MatchMode::LiteralCaseSensitive,
            MatcherSel::LitCi { .. } => MatchMode::LiteralCaseInsensitive,
            MatcherSel::Re { .. } => MatchMode::RegexCaseSensitive,
            MatcherSel::ReCi { .. } => MatchMode::RegexCaseInsensitive,
        }
    }

    /// Compiles the query once for the given mode. Fails exactly when the
    /// query is to be a regular expression and its syntax is invalid; no
    /// line has been scanned by then.
    pub fn compile(query: &str, mode: MatchMode) -> (r: Result<Matcher, SearchError>)
        ensures
            r is Ok <==> compile_ok(mode, query@),
            r is Ok ==> r->Ok_0.mode() == mode && r->Ok_0.query() == query@,
            r is Err ==> r->Err_0 == SearchError::Pattern,
            mode == MatchMode::LiteralCaseInsensitive && query@.len() == 0 ==> lower_of(
                query@,
            ).len() == 0,
    {
        match mode {
            MatchMode::LiteralCaseSensitive => {
                Ok(Matcher { sel: MatcherSel::Lit { needle: query.to_owned() }, query: Ghost(query@) })
            },
            MatchMode::LiteralCaseInsensitive => {
                let needle = to_lower(query);
                Ok(Matcher { sel: MatcherSel::LitCi { needle }, query: Ghost(query@) })
            },
            MatchMode::RegexCaseSensitive => {
                match regex_new(query) {
                    Some(handle) => Ok(
                        Matcher { sel: MatcherSel::Re { handle }, query: Ghost(query@) },
                    ),
                    None => Err(SearchError::Pattern),
                }
            },
            MatchMode::RegexCaseInsensitive => {
                let pattern = String::from_str("(?i)").concat(query);
                proof {
                    reveal_strlit("(?i)");
                    assert(pattern@ =~= effective_pattern(query@, true));
                }
                match regex_new(pattern.as_str()) {
                    Some(handle) => Ok(
                        Matcher { sel: MatcherSel::ReCi { handle }, query: Ghost(query@) },
                    ),
                    None => Err(SearchError::Pattern),
                }
            },
        }
    }

    /// Evaluates the predicate on one line. Pure: the outcome depends on the
    /// compiled query and the line alone, which is what lets the scan fan
    /// out across lines without locks.
    pub fn matches(&self, line: &str) -> (r: bool)
        ensures
            r == line_matches(self.mode(), self.query(), line@),
    {
        proof {
            use_type_invariant(self);
        }
        match &self.sel {
            MatcherSel::Lit { needle } => crate::text::contains_sub(line, needle.as_str()),
            MatcherSel::LitCi { needle } => {
                let lowered = to_lower(line);
                crate::text::contains_sub(lowered.as_str(), needle.as_str())
            },
            MatcherSel::Re { handle } => regex_is_match(handle, line),
            MatcherSel::ReCi { handle } => regex_is_match(handle, line),
        }
    }
}

} // verus!
