//! The scan itself: the ordered line sequence is cut into contiguous chunks,
//! each chunk is filtered by the shared predicate independently — fanned out
//! across a worker pool — and the per-chunk results are concatenated in chunk
//! order. The concatenation lemmas below prove that this reproduces exactly
//! what a strictly sequential left-to-right scan returns, whatever the worker
//! count or chunk size.

use vstd::prelude::*;

use rayon::iter::IntoParallelRefIterator;
use rayon::iter::ParallelIterator;

use crate::matcher::{compile_ok, line_matches, lower_of, Matcher};
use crate::text::{lemma_contains_empty, split_into_lines, split_lines};
use crate::{mode_of, MatchMode, SearchError};

verus! {

/// How many lines one worker takes as a chunk.
pub const CHUNK_LINES: usize = 1024;

/// The lines that match, in their original order: the result of a strictly
/// sequential left-to-right scan.
pub open spec fn matching_lines(lines: Seq<Seq<char>>, mode: MatchMode, query: Seq<char>) -> Seq<
    Seq<char>,
>
    decreases lines.len(),
{
    if lines.len() == 0 {
        Seq::empty()
    } else {
        let rest = matching_lines(lines.drop_first(), mode, query);
        if line_matches(mode, query, lines.first()) {
            seq![lines.first()] + rest
        } else {
            rest
        }
    }
}

/// The per-chunk match lists, concatenated in chunk order.
pub open spec fn chunk_results(
    chunks: Seq<Seq<Seq<char>>>,
    mode: MatchMode,
    query: Seq<char>,
) -> Seq<Seq<char>>
    decreases chunks.len(),
{
    if chunks.len() == 0 {
        Seq::empty()
    } else {
        matching_lines(chunks.first(), mode, query) + chunk_results(
            chunks.drop_first(),
            mode,
            query,
        )
    }
}

/// A sequential scan of two line runs, one after the other, is the scan of
/// the first run followed by the scan of the second.
pub proof fn lemma_matching_lines_concat(
    a: Seq<Seq<char>>,
    b: Seq<Seq<char>>,
    mode: MatchMode,
    query: Seq<char>,
)
    ensures
        matching_lines(a + b, mode, query) == matching_lines(a, mode, query) + matching_lines(
            b,
            mode,
            query,
        ),
    decreases a.len(),
{
    if a.len() == 0 {
        assert(a + b =~= b);
        assert(matching_lines(a, mode, query) + matching_lines(b, mode, query) =~= matching_lines(
            b,
            mode,
            query,
        ));
    } else {
        assert((a + b).len() > 0);
        assert((a + b).first() == a.first());
        assert((a + b).drop_first() =~= a.drop_first() + b);
        lemma_matching_lines_concat(a.drop_first(), b, mode, query);
        if line_matches(mode, query, a.first()) {
            assert(seq![a.first()] + (matching_lines(a.drop_first(), mode, query)
                + matching_lines(b, mode, query)) =~= (seq![a.first()] + matching_lines(
                a.drop_first(),
                mode,
                query,
            )) + matching_lines(b, mode, query));
        }
    }
}

/// A one-line run scans to that line, or to nothing.
pub proof fn lemma_matching_lines_singleton(l: Seq<char>, mode: MatchMode, query: Seq<char>)
    ensures
        matching_lines(seq![l], mode, query) == if line_matches(mode, query, l) {
            seq![l]
        } else {
            Seq::<Seq<char>>::empty()
        },
{
    assert(seq![l].first() == l);
    assert(seq![l].drop_first() =~= Seq::<Seq<char>>::empty());
    assert(matching_lines(Seq::<Seq<char>>::empty(), mode, query) == Seq::<Seq<char>>::empty());
    if line_matches(mode, query, l) {
        assert(seq![l] + Seq::<Seq<char>>::empty() =~= seq![l]);
    }
}

/// Order invariance of the chunked scan: filtering contiguous chunks
/// independently and concatenating the results in chunk order yields exactly
/// the sequential scan of the chunks laid end to end.
pub proof fn lemma_chunk_results_flatten(
    chunks: Seq<Seq<Seq<char>>>,
    mode: MatchMode,
    query: Seq<char>,
)
    ensures
        chunk_results(chunks, mode, query) == matching_lines(chunks.flatten(), mode, query),
    decreases chunks.len(),
{
    if chunks.len() == 0 {
    } else {
        lemma_chunk_results_flatten(chunks.drop_first(), mode, query);
        lemma_matching_lines_concat(chunks.first(), chunks.drop_first().flatten(), mode, query);
    }
}

/// Appending one chunk extends the concatenated results by that chunk's own
/// match list.
pub proof fn lemma_chunk_results_snoc(
    cs: Seq<Seq<Seq<char>>>,
    c: Seq<Seq<char>>,
    mode: MatchMode,
    query: Seq<char>,
)
    ensures
        chunk_results(cs.push(c), mode, query) == chunk_results(cs, mode, query) + matching_lines(
            c,
            mode,
            query,
        ),
    decreases cs.len(),
{
    if cs.len() == 0 {
        assert(cs =~= Seq::<Seq<Seq<char>>>::empty());
        assert(chunk_results(Seq::<Seq<Seq<char>>>::empty(), mode, query) == Seq::<
            Seq<char>,
        >::empty());
        assert(cs.push(c).first() == c);
        assert(cs.push(c).drop_first() =~= Seq::<Seq<Seq<char>>>::empty());
        assert(matching_lines(c, mode, query) + Seq::<Seq<char>>::empty() =~= matching_lines(
            c,
            mode,
            query,
        ));
        assert(Seq::<Seq<char>>::empty() + matching_lines(c, mode, query) =~= matching_lines(
            c,
            mode,
            query,
        ));
    } else {
        assert(cs.push(c).first() == cs.first());
        assert(cs.push(c).drop_first() =~= cs.drop_first().push(c));
        lemma_chunk_results_snoc(cs.drop_first(), c, mode, query);
        assert((matching_lines(cs.first(), mode, query) + chunk_results(
            cs.drop_first(),
            mode,
            query,
        )) + matching_lines(c, mode, query) =~= matching_lines(cs.first(), mode, query)
            + (chunk_results(cs.drop_first(), mode, query) + matching_lines(c, mode, query)));
    }
}

/// When every line matches, the scan returns every line.
pub proof fn lemma_matching_lines_all(lines: Seq<Seq<char>>, mode: MatchMode, query: Seq<char>)
    requires
        forall|i: int| 0 <= i < lines.len() ==> line_matches(mode, query, #[trigger] lines[i]),
    ensures
        matching_lines(lines, mode, query) == lines,
    decreases lines.len(),
{
    if lines.len() == 0 {
        assert(matching_lines(lines, mode, query) =~= lines);
    } else {
        assert(forall|i: int|
            0 <= i < lines.drop_first().len() ==> line_matches(
                mode,
                query,
                #[trigger] lines.drop_first()[i],
            ));
        lemma_matching_lines_all(lines.drop_first(), mode, query);
        assert(seq![lines.first()] + lines.drop_first() =~= lines);
    }
}

/// One worker's share: filters its chunk sequentially, keeping the relative
/// order of the matches it finds.
fn matching_in_chunk(chunk: &Vec<String>, m: &Matcher) -> (r: Vec<String>)
    ensures
        r.deep_view() == matching_lines(chunk.deep_view(), m.mode(), m.query()),
{
    let mut out: Vec<String> = Vec::new();
    let n = chunk.len();
    let mut i: usize = 0;
    while i < n
        invariant
            i <= n,
            n == chunk@.len(),
            out.deep_view() == matching_lines(chunk.deep_view().take(i as int), m.mode(), m.query()),
        decreases n - i,
    {
        let ghost lines = chunk.deep_view();
        proof {
            assert(lines.take(i as int + 1) =~= lines.take(i as int) + seq![lines[i as int]]);
            lemma_matching_lines_concat(
                lines.take(i as int),
                seq![lines[i as int]],
                m.mode(),
                m.query(),
            );
            lemma_matching_lines_singleton(lines[i as int], m.mode(), m.query());
        }
        if m.matches(chunk[i].as_str()) {
            let ghost prev = out.deep_view();
            out.push(chunk[i].clone());
            proof {
                assert(out.deep_view() =~= prev.push(lines[i as int]));
                assert(prev.push(lines[i as int]) =~= prev + seq![lines[i as int]]);
            }
        } else {
            proof {
                assert(matching_lines(lines.take(i as int), m.mode(), m.query())
                    + Seq::<Seq<char>>::empty() =~= matching_lines(
                    lines.take(i as int),
                    m.mode(),
                    m.query(),
                ));
            }
        }
        i = i + 1;
    }
    proof {
        assert(chunk.deep_view().take(n as int) =~= chunk.deep_view());
    }
    out
}

/// Cuts the ordered line sequence into contiguous chunks of at most
/// `chunk_size` lines; laid end to end, the chunks are the lines again.
fn make_chunks(lines: Vec<String>, chunk_size: usize) -> (r: Vec<Vec<String>>)
    requires
        chunk_size >= 1,
    ensures
        r.deep_view().flatten() == lines.deep_view(),
{
    let n = lines.len();
    let mut chunks: Vec<Vec<String>> = Vec::new();
    let mut cur: Vec<String> = Vec::new();
    let mut i: usize = 0;
    while i < n
        invariant
            i <= n,
            n == lines@.len(),
            chunks.deep_view().flatten() + cur.deep_view() == lines.deep_view().take(i as int),
            cur@.len() < chunk_size,
        decreases n - i,
    {
        let ghost all = lines.deep_view();
        let ghost cur_prev = cur.deep_view();
        cur.push(lines[i].clone());
        proof {
            assert(cur.deep_view() =~= cur_prev.push(all[i as int]));
            assert(all.take(i as int + 1) =~= all.take(i as int).push(all[i as int]));
            assert(chunks.deep_view().flatten() + cur_prev.push(all[i as int])
                =~= (chunks.deep_view().flatten() + cur_prev).push(all[i as int]));
            assert(chunks.deep_view().flatten() + cur.deep_view() =~= all.take(i as int + 1));
        }
        if cur.len() == chunk_size {
            let ghost chunks_prev = chunks.deep_view();
            let ghost cur_full = cur.deep_view();
            let full = cur;
            cur = Vec::new();
            chunks.push(full);
            proof {
                assert(chunks.deep_view() =~= chunks_prev.push(cur_full));
                chunks_prev.lemma_flatten_push(cur_full);
                assert(chunks.deep_view().flatten() + cur.deep_view() =~= all.take(i as int + 1));
            }
        }
        i = i + 1;
    }
    if cur.len() > 0 {
        let ghost chunks_prev = chunks.deep_view();
        let ghost cur_full = cur.deep_view();
        chunks.push(cur);
        proof {
            assert(chunks.deep_view() =~= chunks_prev.push(cur_full));
            chunks_prev.lemma_flatten_push(cur_full);
        }
    } else {
        proof {
            assert(chunks.deep_view().flatten() + cur.deep_view() =~= chunks.deep_view().flatten());
        }
    }
    proof {
        assert(lines.deep_view().take(n as int) =~= lines.deep_view());
    }
    chunks
}

/// Relies on rayon's `ParallelIterator::map` over `par_iter` and `collect`:
/// the collected vector holds one result per chunk, in the chunks' order,
/// exactly as a sequential map would produce — however the pool interleaves
/// the chunks' execution. The closure only calls the verified per-chunk
/// filter.
#[verifier::external_body]
fn matching_chunks_parallel(chunks: &Vec<Vec<String>>, m: &Matcher) -> (r: Vec<Vec<String>>)
    ensures
        r@.len() == chunks@.len(),
        forall|k: int|
            0 <= k < chunks@.len() ==> (#[trigger] r@[k]).deep_view() == matching_lines(
                chunks@[k].deep_view(),
                m.mode(),
                m.query(),
            ),
{
    chunks.par_iter().map(|c| matching_in_chunk(c, m)).collect()
}

/// Appends a copy of every line of `part` to `out`, in order.
fn append_all(out: &mut Vec<String>, part: &Vec<String>)
    ensures
        final(out).deep_view() == old(out).deep_view() + part.deep_view(),
{
    let n = part.len();
    let mut j: usize = 0;
    while j < n
        invariant
            j <= n,
            n == part@.len(),
            out.deep_view() == old(out).deep_view() + part.deep_view().take(j as int),
        decreases n - j,
    {
        let ghost prev = out.deep_view();
        out.push(part[j].clone());
        proof {
            assert(out.deep_view() =~= prev.push(part.deep_view()[j as int]));
            assert(prev.push(part.deep_view()[j as int]) =~= old(out).deep_view()
                + part.deep_view().take(j as int + 1));
        }
        j = j + 1;
    }
    proof {
        assert(part.deep_view().take(n as int) =~= part.deep_view());
    }
}

/// The one possible outcome of a search: the error when a regex query does
/// not compile, else the matching lines of the content, in content order.
pub open spec fn search_spec(
    content: Seq<char>,
    query: Seq<char>,
    ignore_case: bool,
    use_regex: bool,
) -> Result<Seq<Seq<char>>, SearchError> {
    let mode = mode_of(ignore_case, use_regex);
    if !compile_ok(mode, query) {
        Err(SearchError::Pattern)
    } else {
        Ok(matching_lines(split_lines(content), mode, query))
    }
}

/// Searches the content for lines matching the query. The result holds
/// copies of exactly the matching lines, in their order in the content —
/// the order a strictly sequential scan yields, whatever the parallel
/// execution did. An invalid regex query is the one error, returned before
/// any line is scanned; no matches at all is a success with an empty result.
/// An empty literal query matches every line.
pub fn search(content: &str, query: &str, ignore_case: bool, use_regex: bool) -> (r: Result<
    Vec<String>,
    SearchError,
>)
    ensures
        r is Ok <==> search_spec(content@, query@, ignore_case, use_regex) is Ok,
        r is Ok ==> (r->Ok_0).deep_view() == search_spec(
            content@,
            query@,
            ignore_case,
            use_regex,
        )->Ok_0,
        r is Err ==> r->Err_0 == search_spec(content@, query@, ignore_case, use_regex)->Err_0,
        !use_regex && query@.len() == 0 ==> r is Ok && (r->Ok_0).deep_view() == split_lines(
            content@,
        ),
{
    let mode = MatchMode::from_flags(ignore_case, use_regex);
    let m = match Matcher::compile(query, mode) {
        Ok(m) => m,
        Err(e) => {
            return Err(e);
        },
    };
    let ghost mmode = m.mode();
    let ghost mquery = m.query();
    let lines = split_into_lines(content);
    let ghost lines_view = lines.deep_view();
    let chunks = make_chunks(lines, CHUNK_LINES);
    let results = matching_chunks_parallel(&chunks, &m);
    let mut out: Vec<String> = Vec::new();
    let n = results.len();
    let mut i: usize = 0;
    while i < n
        invariant
            i <= n,
            n == results@.len(),
            n == chunks@.len(),
            forall|k: int|
                0 <= k < n ==> (#[trigger] results@[k]).deep_view() == matching_lines(
                    chunks@[k].deep_view(),
                    mmode,
                    mquery,
                ),
            out.deep_view() == chunk_results(chunks.deep_view().take(i as int), mmode, mquery),
        decreases n - i,
    {
        proof {
            assert(chunks.deep_view().take(i as int + 1) =~= chunks.deep_view().take(
                i as int,
            ).push(chunks.deep_view()[i as int]));
            lemma_chunk_results_snoc(
                chunks.deep_view().take(i as int),
                chunks.deep_view()[i as int],
                mmode,
                mquery,
            );
        }
        append_all(&mut out, &results[i]);
        i = i + 1;
    }
    proof {
        assert(chunks.deep_view().take(n as int) =~= chunks.deep_view());
        lemma_chunk_results_flatten(chunks.deep_view(), mmode, mquery);
        if !use_regex && query@.len() == 0 {
            let all = split_lines(content@);
            assert forall|k: int| 0 <= k < all.len() implies line_matches(
                mmode,
                mquery,
                #[trigger] all[k],
            ) by {
                if ignore_case {
                    lemma_contains_empty(lower_of(all[k]), lower_of(query@));
                } else {
                    lemma_contains_empty(all[k], query@);
                }
            }
            lemma_matching_lines_all(all, mmode, mquery);
        }
    }
    Ok(out)
}

} // verus!
