//! The engine's general properties, stated and proved once and for all:
//! idempotence of a search, the equivalence of the two ways to ask for a
//! case-insensitive regex search, and the case-insensitive literal search
//! returning a superset of the case-sensitive one.

use vstd::prelude::*;

use crate::engine::{matching_lines, search_spec};
use crate::matcher::{ci_marker, effective_pattern, line_matches, lower_of, regex_ok};
use crate::text::{contains_seq, split_lines};
use crate::{MatchMode, SearchError};

verus! {

/// Idempotence: a search's outcome is a function of the content and the
/// arguments alone, so repeated calls with unchanged content and arguments
/// return identical results.
pub proof fn lemma_search_idempotent(
    content: Seq<char>,
    query: Seq<char>,
    ignore_case: bool,
    use_regex: bool,
    r1: Result<Seq<Seq<char>>, SearchError>,
    r2: Result<Seq<Seq<char>>, SearchError>,
)
    requires
        r1 == search_spec(content, query, ignore_case, use_regex),
        r2 == search_spec(content, query, ignore_case, use_regex),
    ensures
        r1 == r2,
{
}

/// Two predicates that agree on every line scan any line run to the same
/// result.
pub proof fn lemma_matching_lines_congruent(
    lines: Seq<Seq<char>>,
    m1: MatchMode,
    q1: Seq<char>,
    m2: MatchMode,
    q2: Seq<char>,
)
    requires
        forall|l: Seq<char>| #[trigger] line_matches(m1, q1, l) == line_matches(m2, q2, l),
    ensures
        matching_lines(lines, m1, q1) == matching_lines(lines, m2, q2),
    decreases lines.len(),
{
    if lines.len() == 0 {
    } else {
        lemma_matching_lines_congruent(lines.drop_first(), m1, q1, m2, q2);
        assert(line_matches(m1, q1, lines.first()) == line_matches(m2, q2, lines.first()));
    }
}

/// Equivalence: a case-insensitive regex search equals a case-sensitive
/// regex search for the pattern with the case-insensitivity modifier
/// prepended. The two compile the very same pattern source, so this holds
/// for every pattern and every content.
pub proof fn lemma_regex_ci_equivalence(content: Seq<char>, query: Seq<char>)
    ensures
        search_spec(content, query, true, true) == search_spec(
            content,
            ci_marker() + query,
            false,
            true,
        ),
{
    let p = ci_marker() + query;
    assert(effective_pattern(query, true) == p);
    assert(effective_pattern(p, false) == p);
    if regex_ok(p) {
        assert forall|l: Seq<char>|
            #[trigger] line_matches(MatchMode::RegexCaseInsensitive, query, l) == line_matches(
                MatchMode::RegexCaseSensitive,
                p,
                l,
            ) by {}
        lemma_matching_lines_congruent(
            split_lines(content),
            MatchMode::RegexCaseInsensitive,
            query,
            MatchMode::RegexCaseSensitive,
            p,
        );
    }
}

/// When the second predicate holds wherever the first does, every line the
/// first scan returns, the second returns too.
pub proof fn lemma_matching_lines_superset(
    lines: Seq<Seq<char>>,
    m1: MatchMode,
    q1: Seq<char>,
    m2: MatchMode,
    q2: Seq<char>,
)
    requires
        forall|i: int|
            0 <= i < lines.len() && line_matches(m1, q1, #[trigger] lines[i]) ==> line_matches(
                m2,
                q2,
                lines[i],
            ),
    ensures
        forall|l: Seq<char>|
            matching_lines(lines, m1, q1).contains(l) ==> matching_lines(
                lines,
                m2,
                q2,
            ).contains(l),
    decreases lines.len(),
{
    let r1 = matching_lines(lines, m1, q1);
    let r2 = matching_lines(lines, m2, q2);
    if lines.len() == 0 {
        assert(r1.len() == 0);
    } else {
        assert forall|i: int|
            0 <= i < lines.drop_first().len() && line_matches(
                m1,
                q1,
                #[trigger] lines.drop_first()[i],
            ) implies line_matches(m2, q2, lines.drop_first()[i]) by {
            assert(lines.drop_first()[i] == lines[i + 1]);
        }
        lemma_matching_lines_superset(lines.drop_first(), m1, q1, m2, q2);
        let rest1 = matching_lines(lines.drop_first(), m1, q1);
        let rest2 = matching_lines(lines.drop_first(), m2, q2);
        assert forall|l: Seq<char>| r1.contains(l) implies r2.contains(l) by {
            assert(lines[0] == lines.first());
            if line_matches(m1, q1, lines.first()) {
                assert(r1 == seq![lines.first()] + rest1);
                let j = choose|j: int| 0 <= j < r1.len() && r1[j] == l;
                if j == 0 {
                    assert(l == lines.first());
                    assert(line_matches(m2, q2, lines.first()));
                    assert(r2 == seq![lines.first()] + rest2);
                    assert(r2[0] == l);
                } else {
                    assert(rest1[j - 1] == l);
                    assert(rest1.contains(l));
                    assert(rest2.contains(l));
                    let k = choose|k: int| 0 <= k < rest2.len() && rest2[k] == l;
                    if line_matches(m2, q2, lines.first()) {
                        assert(r2 == seq![lines.first()] + rest2);
                        assert(r2[k + 1] == l);
                    } else {
                        assert(r2 == rest2);
                    }
                }
            } else {
                assert(r1 == rest1);
                assert(rest2.contains(l));
                let k = choose|k: int| 0 <= k < rest2.len() && rest2[k] == l;
                if line_matches(m2, q2, lines.first()) {
                    assert(r2 == seq![lines.first()] + rest2);
                    assert(r2[k + 1] == l);
                } else {
                    assert(r2 == rest2);
                }
            }
        }
    }
}

/// Case-insensitive superset: every line the case-sensitive literal search
/// returns, the case-insensitive literal search of the same query returns
/// too. Unicode lowering is context-sensitive (a final Greek sigma lowers
/// otherwise than a medial one), so this asks that lowering preserve the
/// query's containment on each matched line of the content; on such content
/// the case-insensitive match set is a superset of the case-sensitive one.
pub proof fn lemma_case_insensitive_superset(content: Seq<char>, query: Seq<char>)
    requires
        forall|i: int|
            0 <= i < split_lines(content).len() && contains_seq(
                #[trigger] split_lines(content)[i],
                query,
            ) ==> contains_seq(lower_of(split_lines(content)[i]), lower_of(query)),
    ensures
        search_spec(content, query, false, false) is Ok,
        search_spec(content, query, true, false) is Ok,
        forall|l: Seq<char>|
            (search_spec(content, query, false, false)->Ok_0).contains(l) ==> (search_spec(
                content,
                query,
                true,
                false,
            )->Ok_0).contains(l),
{
    let lines = split_lines(content);
    assert forall|i: int|
        0 <= i < lines.len() && line_matches(
            MatchMode::LiteralCaseSensitive,
            query,
            #[trigger] lines[i],
        ) implies line_matches(MatchMode::LiteralCaseInsensitive, query, lines[i]) by {}
    lemma_matching_lines_superset(
        lines,
        MatchMode::LiteralCaseSensitive,
        query,
        MatchMode::LiteralCaseInsensitive,
        query,
    );
}

} // verus!
