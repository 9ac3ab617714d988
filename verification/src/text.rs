//! Text primitives of the engine: partitioning a content buffer into its
//! lines, and literal substring containment. Both are stated over `Seq<char>`
//! and proved against those statements.

use vstd::prelude::*;
use vstd::string::StrSliceExecFns;

verus! {

/// A line with its terminator's carriage return removed: the last character
/// is dropped when it is `'\r'`. Applied to the text before a line feed, so
/// that a `"\r\n"` terminator leaves no `'\r'` on the line.
pub open spec fn strip_cr(l: Seq<char>) -> Seq<char> {
    if l.len() > 0 && l.last() == '\r' {
        l.drop_last()
    } else {
        l
    }
}

/// The lines of `s[start..]`, read from position `i` on, where `s[start..i]`
/// holds no line feed yet. A line ends at each `'\n'` (a `'\r'` right before
/// it belongs to the terminator); the end of the buffer closes a last line
/// only if text stands after the last terminator, so a trailing terminator
/// adds no empty line.
pub open spec fn lines_from(s: Seq<char>, start: int, i: int) -> Seq<Seq<char>>
    decreases s.len() - i,
{
    if !(0 <= start <= i <= s.len()) {
        Seq::empty()
    } else if i == s.len() {
        if start == i {
            Seq::empty()
        } else {
            seq![s.subrange(start, i)]
        }
    } else if s[i] == '\n' {
        seq![strip_cr(s.subrange(start, i))] + lines_from(s, i + 1, i + 1)
    } else {
        lines_from(s, start, i + 1)
    }
}

/// The ordered lines of a content buffer: maximal spans between line
/// terminators, the terminators excluded. An empty buffer has no lines; a
/// line may be empty; a trailing terminator yields no trailing empty line.
pub open spec fn split_lines(s: Seq<char>) -> Seq<Seq<char>> {
    lines_from(s, 0, 0)
}

/// The needle stands in the haystack exactly at position `i`.
pub open spec fn contains_at(hay: Seq<char>, needle: Seq<char>, i: int) -> bool {
    0 <= i && i + needle.len() <= hay.len() && hay.subrange(i, i + needle.len()) == needle
}

/// Literal containment: the needle stands somewhere in the haystack.
pub open spec fn contains_seq(hay: Seq<char>, needle: Seq<char>) -> bool {
    exists|i: int| contains_at(hay, needle, i)
}

/// An empty needle stands in every haystack.
pub proof fn lemma_contains_empty(hay: Seq<char>, needle: Seq<char>)
    requires
        needle.len() == 0,
    ensures
        contains_seq(hay, needle),
{
    assert(hay.subrange(0, 0) =~= needle);
    assert(contains_at(hay, needle, 0));
}

/// Partitions a content buffer into its lines, each copied into an owned
/// string, in their order in the buffer.
pub fn split_into_lines(content: &str) -> (r: Vec<String>)
    ensures
        r.deep_view() == split_lines(content@),
{
    let n = content.unicode_len();
    let mut out: Vec<String> = Vec::new();
    let mut start: usize = 0;
    let mut i: usize = 0;
    while i < n
        invariant
            start <= i <= n,
            n == content@.len(),
            split_lines(content@) == out.deep_view() + lines_from(
                content@,
                start as int,
                i as int,
            ),
        decreases n - i,
    {
        let c = content.get_char(i);
        if c == '\n' {
            let line_end: usize = if i > start && content.get_char(i - 1) == '\r' {
                i - 1
            } else {
                i
            };
            let piece = content.substring_char(start, line_end);
            let ghost prev = out.deep_view();
            out.push(piece.to_owned());
            proof {
                let s = content@;
                assert(strip_cr(s.subrange(start as int, i as int)) =~= piece@) by {
                    let sub = s.subrange(start as int, i as int);
                    if i > start && s[i - 1] == '\r' {
                        assert(sub.last() == s[i - 1]);
                        assert(sub.drop_last() =~= s.subrange(start as int, i as int - 1));
                    }
                }
                assert(out.deep_view() =~= prev.push(piece@));
                assert(prev + lines_from(s, start as int, i as int) =~= prev.push(piece@)
                    + lines_from(s, i as int + 1, i as int + 1));
            }
            start = i + 1;
        } else {
            proof {
                assert(lines_from(content@, start as int, i as int) == lines_from(
                    content@,
                    start as int,
                    i as int + 1,
                ));
            }
        }
        i = i + 1;
    }
    if start < n {
        let piece = content.substring_char(start, n);
        let ghost prev = out.deep_view();
        out.push(piece.to_owned());
        proof {
            assert(out.deep_view() =~= prev.push(piece@));
            assert(prev + lines_from(content@, start as int, n as int) =~= prev.push(piece@));
        }
    } else {
        proof {
            assert(out.deep_view() + lines_from(content@, start as int, n as int)
                =~= out.deep_view());
        }
    }
    out
}

/// Whether the needle stands in the haystack exactly at position `i`.
fn match_at(hay: &str, needle: &str, i: usize) -> (r: bool)
    requires
        i + needle@.len() <= hay@.len() <= usize::MAX,
    ensures
        r == contains_at(hay@, needle@, i as int),
{
    let m = needle.unicode_len();
    let mut j: usize = 0;
    while j < m
        invariant
            j <= m,
            m == needle@.len(),
            i + m <= hay@.len() <= usize::MAX,
            forall|l: int| 0 <= l < j ==> hay@[i + l] == #[trigger] needle@[l],
        decreases m - j,
    {
        if hay.get_char(i + j) != needle.get_char(j) {
            proof {
                assert(hay@.subrange(i as int, i as int + m)[j as int] == hay@[i + j]);
            }
            return false;
        }
        j = j + 1;
    }
    proof {
        assert(hay@.subrange(i as int, i as int + m) =~= needle@);
    }
    true
}

/// Literal substring search, the predicate of the literal match modes.
pub fn contains_sub(hay: &str, needle: &str) -> (r: bool)
    ensures
        r == contains_seq(hay@, needle@),
{
    let n = hay.unicode_len();
    let m = needle.unicode_len();
    if m > n {
        proof {
            assert forall|k: int| !contains_at(hay@, needle@, k) by {
                if contains_at(hay@, needle@, k) {
                    assert(k + needle@.len() <= hay@.len());
                }
            }
        }
        return false;
    }
    if m == 0 {
        proof {
            lemma_contains_empty(hay@, needle@);
        }
        return true;
    }
    let mut i: usize = 0;
    while i <= n - m
        invariant
            1 <= m <= n,
            n == hay@.len(),
            m == needle@.len(),
            i <= n - m + 1,
            forall|k: int| 0 <= k < i ==> !#[trigger] contains_at(hay@, needle@, k),
        decreases n - m - i + 1,
    {
        if match_at(hay, needle, i) {
            proof {
                assert(contains_at(hay@, needle@, i as int));
            }
            return true;
        }
        i = i + 1;
    }
    proof {
        assert forall|k: int| !contains_at(hay@, needle@, k) by {
            if contains_at(hay@, needle@, k) {
                assert(0 <= k <= hay@.len() - needle@.len());
                assert(!contains_at(hay@, needle@, k));
            }
        }
    }
    false
}

} // verus!
