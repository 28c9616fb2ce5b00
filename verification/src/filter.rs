//! The filter engine's scan: score every candidate line against the query,
//! drop the non-matches, and order the survivors by descending score with
//! ties broken by ascending original index.
//!
//! The contract pins the result down completely: which indices appear is an
//! if-and-only-if over the match predicate, and the order is a strict total
//! order, so any two runs over the same snapshot agree (the merge order owes
//! nothing to scheduling).

use vstd::prelude::*;

use crate::fileinfo::FilePath;
use crate::fuzzy::{
    fuzzy_score, fuzzy_score_of, is_match, is_substring_of, lemma_match_monotone,
};

verus! {

/// Which entries match the current query, and in what order: everything, a
/// chosen ordered subset, or nothing at all (cleared).
#[derive(Debug)]
pub enum FileterResultEnum {
    All(usize),
    Subset(Vec<usize>),
    Empty,
}

impl FileterResultEnum {
    pub open spec fn len_spec(&self) -> nat {
        match self {
            FileterResultEnum::All(count) => *count as nat,
            FileterResultEnum::Subset(v) => v@.len(),
            FileterResultEnum::Empty => 0,
        }
    }

    /// How many rows the result offers.
    pub fn len(&self) -> (r: usize)
        ensures
            r == self.len_spec(),
    {
        match self {
            FileterResultEnum::All(count) => *count,
            FileterResultEnum::Subset(v) => v.len(),
            FileterResultEnum::Empty => 0,
        }
    }
}

/// Index `i` names an entry whose display line the matcher accepts for `q`.
pub open spec fn matches_at(contents: Seq<FilePath>, q: Seq<char>, i: int) -> bool {
    0 <= i < contents.len() && is_match(q, contents[i].line_view())
}

/// The matcher's score for the entry at `i` (meaningful only where
/// `matches_at` holds).
pub open spec fn score_at(contents: Seq<FilePath>, q: Seq<char>, i: int) -> i64 {
    fuzzy_score_of(contents[i].line_view(), q)->0
}

/// The output order: higher score first, ties by ascending original index.
pub open spec fn idx_before(contents: Seq<FilePath>, q: Seq<char>, a: int, b: int) -> bool {
    ||| score_at(contents, q, a) > score_at(contents, q, b)
    ||| (score_at(contents, q, a) == score_at(contents, q, b) && a < b)
}

/// The scan's whole contract over a candidate list: exactly the matching
/// candidates survive, in strictly descending score order.
pub open spec fn scan_result_ok(
    contents: Seq<FilePath>,
    q: Seq<char>,
    cands: Seq<usize>,
    r: Seq<usize>,
) -> bool {
    &&& forall|x: usize|
        r.contains(x) <==> cands.contains(x) && matches_at(contents, q, x as int)
    &&& forall|k1: int, k2: int|
        0 <= k1 < k2 < r.len() ==> idx_before(contents, q, r[k1] as int, r[k2] as int)
}

/// A full scan is a scan whose candidates are the whole content store.
pub open spec fn full_scan_ok(
    contents: Seq<FilePath>,
    q: Seq<char>,
    r: Seq<usize>,
) -> bool {
    &&& forall|x: usize| r.contains(x) <==> matches_at(contents, q, x as int)
    &&& forall|k1: int, k2: int|
        0 <= k1 < k2 < r.len() ==> idx_before(contents, q, r[k1] as int, r[k2] as int)
}

/// One scored survivor: the score the matcher gave it and its index into
/// the content store.
#[derive(Debug)]
pub struct ScoredRow {
    pub score: i64,
    pub idx: usize,
}

/// A scoring job's resumable state: the survivors found so far, kept sorted.
#[derive(Debug)]
pub struct ScanState {
    pub rows: Vec<ScoredRow>,
}

/// What holds of a job's rows after it has scored the candidates in `done`:
/// every row is a matching candidate from `done` carrying its true score,
/// every matching candidate from `done` has a row, the rows are strictly
/// ordered (best first, ties by index), and no index appears twice.
pub open spec fn scan_state_ok(
    contents: Seq<FilePath>,
    q: Seq<char>,
    done: Seq<usize>,
    rows: Seq<ScoredRow>,
) -> bool {
    &&& forall|k: int|
        0 <= k < rows.len() ==> {
            let row = #[trigger] rows[k];
            &&& done.contains(row.idx)
            &&& matches_at(contents, q, row.idx as int)
            &&& Some(row.score) == fuzzy_score_of(contents[row.idx as int].line_view(), q)
        }
    &&& forall|x: usize|
        done.contains(x) && matches_at(contents, q, x as int) ==> exists|k: int|
            0 <= k < rows.len() && (#[trigger] rows[k]).idx == x
    &&& forall|k1: int, k2: int|
        0 <= k1 < k2 < rows.len() ==> idx_before(contents, q, rows[k1].idx as int, rows[k2].idx as int)
    &&& forall|k1: int, k2: int| 0 <= k1 < k2 < rows.len() ==> rows[k1].idx != rows[k2].idx
}

impl ScanState {
    /// A job that has scored nothing yet.
    pub fn new() -> (r: ScanState)
        ensures
            r.rows@.len() == 0,
    {
        ScanState { rows: Vec::new() }
    }
}

/// Score one bounded slice of a job's candidates — those from `from`, at
/// most `limit` of them — folding the survivors into the job's state, so a
/// caller can check the live generation ticket between slices and abandon a
/// superseded job promptly. Candidates that point past the end of the store
/// are skipped (the store may have been cleared since they were taken).
pub fn scan_step(
    contents: &Vec<FilePath>,
    query: &Vec<char>,
    cands: &Vec<usize>,
    from: usize,
    limit: usize,
    state: ScanState,
) -> (r: (usize, ScanState))
    requires
        forall|k: int| 0 <= k < contents@.len() ==> (#[trigger] contents@[k]).wf(),
        from <= cands@.len(),
        limit >= 1,
        scan_state_ok(contents@, query@, cands@.subrange(0, from as int), state.rows@),
    ensures
        r.0 == if from + limit <= cands@.len() {
            from + limit
        } else {
            cands@.len() as int
        },
        scan_state_ok(contents@, query@, cands@.subrange(0, r.0 as int), r.1.rows@),
{
    let ghost cseq = contents@;
    let ghost qseq = query@;
    let to = if limit <= cands.len() - from {
        from + limit
    } else {
        cands.len()
    };
    let mut out: Vec<ScoredRow> = state.rows;
    let mut c: usize = from;
    while c < to
        invariant
            from <= c <= to <= cands@.len(),
            forall|k: int| 0 <= k < cseq.len() ==> (#[trigger] cseq[k]).wf(),
            contents@ == cseq,
            query@ == qseq,
            // every stored row is a matching candidate from the processed prefix
            forall|k: int|
                0 <= k < out@.len() ==> {
                    let row = #[trigger] out@[k];
                    &&& cands@.subrange(0, c as int).contains(row.idx)
                    &&& matches_at(cseq, qseq, row.idx as int)
                    &&& Some(row.score) == fuzzy_score_of(
                        cseq[row.idx as int].line_view(),
                        qseq,
                    )
                },
            // every matching candidate from the prefix is stored
            forall|x: usize|
                cands@.subrange(0, c as int).contains(x) && matches_at(cseq, qseq, x as int)
                    ==> exists|k: int| 0 <= k < out@.len() && (#[trigger] out@[k]).idx == x,
            // strictly sorted: best first, ties by index
            forall|k1: int, k2: int|
                0 <= k1 < k2 < out@.len() ==> idx_before(
                    cseq,
                    qseq,
                    out@[k1].idx as int,
                    out@[k2].idx as int,
                ),
            // no index stored twice
            forall|k1: int, k2: int|
                0 <= k1 < k2 < out@.len() ==> out@[k1].idx != out@[k2].idx,
        decreases to - c,
    {
        let idx = cands[c];
        if idx < contents.len() {
            let line = contents[idx].line();
            match fuzzy_score(&line, query) {
                Some(score) => {
                    let mut p: usize = 0;
                    while p < out.len() && (out[p].score > score || (out[p].score == score
                        && out[p].idx < idx))
                        invariant
                            0 <= p <= out@.len(),
                            contents@ == cseq,
                            query@ == qseq,
                            forall|k: int|
                                0 <= k < p ==> idx_before(
                                    cseq,
                                    qseq,
                                    (#[trigger] out@[k]).idx as int,
                                    idx as int,
                                ),
                            forall|k: int|
                                0 <= k < out@.len() ==> Some((#[trigger] out@[k]).score)
                                    == fuzzy_score_of(cseq[out@[k].idx as int].line_view(), qseq),
                            Some(score) == fuzzy_score_of(cseq[idx as int].line_view(), qseq),
                        decreases out@.len() - p,
                    {
                        proof {
                            assert(idx_before(cseq, qseq, out@[p as int].idx as int, idx as int));
                        }
                        p += 1;
                    }
                    // a candidate named twice lands exactly on its own row
                    let is_dup = p < out.len() && out[p].idx == idx;
                    if is_dup {
                        proof {
                            lemma_prefix_grow(cands@, c as int);
                            assert(out@[p as int].idx == idx);
                        }
                    } else {
                    proof {
                        if p < out@.len() {
                            assert(out@[p as int].idx != idx);
                            assert(idx_before(cseq, qseq, idx as int, out@[p as int].idx as int));
                        }
                        // the new index is on no existing row: rows before the
                        // insertion point order strictly before it, rows after
                        // strictly after, and an equal index would tie the score
                        assert forall|k: int|
                            0 <= k < out@.len() implies (#[trigger] out@[k]).idx != idx by {
                            if out@[k].idx == idx {
                                assert(out@[k].score == score);
                                if k < p {
                                    assert(idx_before(cseq, qseq, out@[k].idx as int, idx as int));
                                } else if k > p {
                                    assert(idx_before(
                                        cseq,
                                        qseq,
                                        out@[p as int].idx as int,
                                        out@[k].idx as int,
                                    ));
                                    assert(idx_before(cseq, qseq, idx as int, out@[k].idx as int));
                                }
                            }
                        }
                    }
                    let ghost old_out = out@;
                    let ghost row = (ScoredRow { score, idx });
                    out.insert(p, ScoredRow { score, idx });
                    proof {
                        lemma_insert_facts(old_out, p as int, row);
                        let new_out = out@;
                        // sortedness is kept on both sides of the insertion point
                        assert forall|k1: int, k2: int|
                            0 <= k1 < k2 < new_out.len() implies idx_before(
                            cseq,
                            qseq,
                            new_out[k1].idx as int,
                            new_out[k2].idx as int,
                        ) by {
                            if k2 < p {
                                assert(new_out[k1] == old_out[k1]);
                                assert(new_out[k2] == old_out[k2]);
                            } else if k1 < p && k2 == p {
                                assert(new_out[k1] == old_out[k1]);
                                assert(idx_before(
                                    cseq,
                                    qseq,
                                    old_out[k1].idx as int,
                                    idx as int,
                                ));
                            } else if k1 < p && k2 > p {
                                assert(new_out[k1] == old_out[k1]);
                                assert(new_out[k2] == old_out[k2 - 1]);
                                assert(idx_before(
                                    cseq,
                                    qseq,
                                    old_out[k1].idx as int,
                                    old_out[k2 - 1].idx as int,
                                ));
                            } else if k1 == p {
                                assert(new_out[k2] == old_out[k2 - 1]);
                                assert(idx_before(
                                    cseq,
                                    qseq,
                                    idx as int,
                                    old_out[p as int].idx as int,
                                ));
                                if k2 - 1 > p {
                                    assert(idx_before(
                                        cseq,
                                        qseq,
                                        old_out[p as int].idx as int,
                                        old_out[k2 - 1].idx as int,
                                    ));
                                }
                            } else {
                                assert(new_out[k1] == old_out[k1 - 1]);
                                assert(new_out[k2] == old_out[k2 - 1]);
                            }
                        }
                        // no index is stored twice
                        assert forall|k1: int, k2: int|
                            0 <= k1 < k2 < new_out.len() implies new_out[k1].idx
                            != new_out[k2].idx by {}
                        lemma_prefix_grow(cands@, c as int);
                        // the new row is recorded, the old ones keep their places
                        assert forall|x: usize|
                            cands@.subrange(0, c + 1).contains(x) && matches_at(
                                cseq,
                                qseq,
                                x as int,
                            ) implies exists|k: int|
                            0 <= k < new_out.len() && (#[trigger] new_out[k]).idx == x by {
                            if x == idx {
                                assert(new_out[p as int].idx == x);
                            } else {
                                assert(cands@.subrange(0, c as int).contains(x));
                                let k = choose|k: int|
                                    0 <= k < old_out.len() && (#[trigger] old_out[k]).idx == x;
                                if k < p {
                                    assert(new_out[k].idx == x);
                                } else {
                                    assert(new_out[k + 1].idx == x);
                                }
                            }
                        }
                        assert forall|k: int|
                            0 <= k < new_out.len() implies {
                            let row2 = #[trigger] new_out[k];
                            &&& cands@.subrange(0, c + 1).contains(row2.idx)
                            &&& matches_at(cseq, qseq, row2.idx as int)
                            &&& Some(row2.score) == fuzzy_score_of(
                                cseq[row2.idx as int].line_view(),
                                qseq,
                            )
                        } by {
                            assert(cands@.subrange(0, c + 1)[c as int] == idx);
                            if k != p {
                                let k0 = if k < p {
                                    k
                                } else {
                                    k - 1
                                };
                                assert(old_out[k0] == new_out[k]);
                                assert(cands@.subrange(0, c as int).contains(old_out[k0].idx));
                            }
                        }
                    }
                    }
                }
                None => {},
            }
        }
        proof {
            lemma_prefix_grow(cands@, c as int);
        }
        c += 1;
    }
    (to, ScanState { rows: out })
}

/// The finished job's ordered index list: each row's content index, in the
/// order the rows were kept.
pub fn scan_finish(state: &ScanState) -> (r: Vec<usize>)
    ensures
        r@.len() == state.rows@.len(),
        forall|j: int| 0 <= j < r@.len() ==> r@[j] == (#[trigger] state.rows@[j]).idx,
{
    let out = &state.rows;
    let mut r: Vec<usize> = Vec::new();
    let mut k: usize = 0;
    while k < out.len()
        invariant
            0 <= k <= out@.len(),
            r@.len() == k,
            forall|j: int| 0 <= j < k ==> r@[j] == (#[trigger] out@[j]).idx,
        decreases out@.len() - k,
    {
        r.push(out[k].idx);
        k += 1;
    }
    r
}

/// A job that has scored all its candidates and handed out its rows' indices
/// meets the scan's whole contract.
pub proof fn lemma_scan_state_result(
    contents: Seq<FilePath>,
    q: Seq<char>,
    cands: Seq<usize>,
    rows: Seq<ScoredRow>,
    r: Seq<usize>,
)
    requires
        scan_state_ok(contents, q, cands, rows),
        r.len() == rows.len(),
        forall|j: int| 0 <= j < r.len() ==> r[j] == (#[trigger] rows[j]).idx,
    ensures
        scan_result_ok(contents, q, cands, r),
{
    assert forall|k1: int, k2: int|
        0 <= k1 < k2 < r.len() implies idx_before(contents, q, r[k1] as int, r[k2] as int) by {
        assert(r[k1] == rows[k1].idx);
        assert(r[k2] == rows[k2].idx);
    }
    assert forall|x: usize|
        r.contains(x) <==> cands.contains(x) && matches_at(contents, q, x as int) by {
        if r.contains(x) {
            let j = choose|j: int| 0 <= j < r.len() && r[j] == x;
            assert(rows[j].idx == x);
        }
        if cands.contains(x) && matches_at(contents, q, x as int) {
            let k2 = choose|k2: int| 0 <= k2 < rows.len() && (#[trigger] rows[k2]).idx == x;
            assert(r[k2] == x);
        }
    }
}

/// Score the candidate indices against the query and return the matching
/// ones, best score first, ties by ascending index: the whole job in one
/// call, slice by slice.
pub fn scan_candidates(contents: &Vec<FilePath>, query: &Vec<char>, cands: &Vec<usize>) -> (r: Vec<
    usize,
>)
    requires
        forall|k: int| 0 <= k < contents@.len() ==> (#[trigger] contents@[k]).wf(),
    ensures
        scan_result_ok(contents@, query@, cands@, r@),
{
    let mut state = ScanState::new();
    proof {
        assert(cands@.subrange(0, 0) =~= Seq::<usize>::empty());
        assert(scan_state_ok(contents@, query@, cands@.subrange(0, 0), state.rows@));
    }
    let mut from: usize = 0;
    while from < cands.len()
        invariant
            0 <= from <= cands@.len(),
            forall|k: int| 0 <= k < contents@.len() ==> (#[trigger] contents@[k]).wf(),
            scan_state_ok(contents@, query@, cands@.subrange(0, from as int), state.rows@),
        decreases cands@.len() - from,
    {
        let (next, updated) = scan_step(contents, query, cands, from, 1024, state);
        from = next;
        state = updated;
    }
    proof {
        assert(cands@.subrange(0, cands@.len() as int) =~= cands@);
    }
    let r = scan_finish(&state);
    proof {
        lemma_scan_state_result(contents@, query@, cands@, state.rows@, r@);
    }
    r
}

/// Extending a prefix of the candidate list by one position adds exactly that
/// candidate to what the prefix holds.
proof fn lemma_prefix_grow(cands: Seq<usize>, c: int)
    requires
        0 <= c < cands.len(),
    ensures
        forall|x: usize|
            #[trigger] cands.subrange(0, c + 1).contains(x) <==> cands.subrange(0, c).contains(x)
                || x == cands[c],
{
    assert forall|x: usize|
        #[trigger] cands.subrange(0, c + 1).contains(x) <==> (cands.subrange(0, c).contains(x)
            || x == cands[c]) by {
        if cands.subrange(0, c + 1).contains(x) {
            let j = choose|j: int|
                0 <= j < cands.subrange(0, c + 1).len() && (#[trigger] cands.subrange(0, c + 1)[j])
                    == x;
            if j < c {
                assert(cands.subrange(0, c)[j] == x);
            }
        }
        if cands.subrange(0, c).contains(x) {
            let j = choose|j: int|
                0 <= j < cands.subrange(0, c).len() && (#[trigger] cands.subrange(0, c)[j]) == x;
            assert(cands.subrange(0, c + 1)[j] == x);
        }
        if x == cands[c] {
            assert(cands.subrange(0, c + 1)[c] == x);
        }
    }
}

/// After inserting a row at a position that respects the order on both sides,
/// the list is still sorted, still duplicate-free, and holds exactly the old
/// rows plus the new one.
proof fn lemma_insert_facts(s: Seq<ScoredRow>, p: int, e: ScoredRow)
    requires
        0 <= p <= s.len(),
    ensures
        forall|k: int|
            0 <= k < s.insert(p, e).len() ==> (#[trigger] s.insert(p, e)[k]) == if k < p {
                s[k]
            } else if k == p {
                e
            } else {
                s[k - 1]
            },
        s.insert(p, e).len() == s.len() + 1,
{
    assert forall|k: int|
        0 <= k < s.insert(p, e).len() implies (#[trigger] s.insert(p, e)[k]) == (if k < p {
        s[k]
    } else if k == p {
        e
    } else {
        s[k - 1]
    }) by {
    }
}

/// Scan the whole content store.
pub fn filter_scan(contents: &Vec<FilePath>, query: &Vec<char>) -> (r: Vec<usize>)
    requires
        forall|k: int| 0 <= k < contents@.len() ==> (#[trigger] contents@[k]).wf(),
    ensures
        full_scan_ok(contents@, query@, r@),
{
    let mut cands: Vec<usize> = Vec::new();
    let mut i: usize = 0;
    while i < contents.len()
        invariant
            0 <= i <= contents@.len(),
            cands@.len() == i,
            forall|k: int| 0 <= k < i ==> cands@[k] == k,
        decreases contents@.len() - i,
    {
        cands.push(i);
        i += 1;
    }
    let r = scan_candidates(contents, query, &cands);
    proof {
        assert forall|x: usize|
            cands@.contains(x) <==> 0 <= x < contents@.len() by {
            if 0 <= x < contents@.len() {
                assert(cands@[x as int] == x);
            }
        }
        assert forall|x: usize|
            r@.contains(x) <==> matches_at(contents@, query@, x as int) by {
            if matches_at(contents@, query@, x as int) {
                assert(cands@.contains(x));
            }
        }
    }
    r
}


/// The previous completed result can seed the new scan: it exists and the new
/// query holds the old one as a substring.
pub open spec fn prev_refines(prev: Option<(Vec<char>, Vec<usize>)>, q: Seq<char>) -> bool {
    prev is Some && is_substring_of((prev->0).0@, q)
}

/// One filter job, exactly as the engine runs it: an empty query selects
/// everything without scoring; a query that extends the previous completed one
/// rescans only the previous survivors; any other query rescans the whole
/// store.
pub fn run_filter(
    contents: &Vec<FilePath>,
    query: &Vec<char>,
    prev: &Option<(Vec<char>, Vec<usize>)>,
) -> (r: FileterResultEnum)
    requires
        forall|k: int| 0 <= k < contents@.len() ==> (#[trigger] contents@[k]).wf(),
    ensures
        query@.len() == 0 ==> r is All && r.len_spec() == contents@.len(),
        query@.len() > 0 ==> r is Subset,
        query@.len() > 0 && prev_refines(*prev, query@) ==> scan_result_ok(
            contents@,
            query@,
            (prev->0).1@,
            r->Subset_0@,
        ),
        query@.len() > 0 && !prev_refines(*prev, query@) ==> full_scan_ok(
            contents@,
            query@,
            r->Subset_0@,
        ),
{
    if query.len() == 0 {
        return FileterResultEnum::All(contents.len());
    }
    match prev {
        Some(p) => {
            if crate::fuzzy::contains_chars(query, &p.0) {
                return FileterResultEnum::Subset(scan_candidates(contents, query, &p.1));
            }
        },
        None => {},
    }
    FileterResultEnum::Subset(filter_scan(contents, query))
}

/// A fresh buffer with the same indices.
fn copy_index_list(v: &Vec<usize>) -> (r: Vec<usize>)
    ensures
        r@ == v@,
{
    let mut out: Vec<usize> = Vec::new();
    let mut i: usize = 0;
    while i < v.len()
        invariant
            0 <= i <= v@.len(),
            out@ =~= v@.subrange(0, i as int),
        decreases v@.len() - i,
    {
        out.push(v[i]);
        i += 1;
    }
    assert(out@ =~= v@);
    out
}

/// The candidate indices one scoring job must scan: none at all for an empty
/// query (everything matches without scoring), the previous survivors when
/// the new query extends the previous completed one, and the whole store
/// otherwise. A caller driving the scan slice by slice starts from this.
pub fn job_candidates(
    contents_len: usize,
    query: &Vec<char>,
    prev: &Option<(Vec<char>, Vec<usize>)>,
) -> (r: Option<Vec<usize>>)
    ensures
        (r is None) == (query@.len() == 0),
        query@.len() > 0 && prev_refines(*prev, query@) ==> (r->0)@ == (prev->0).1@,
        query@.len() > 0 && !prev_refines(*prev, query@) ==> (r->0)@.len() == contents_len
            && forall|k: int| 0 <= k < contents_len ==> (r->0)@[k] == k,
{
    if query.len() == 0 {
        return None;
    }
    match prev {
        Some(p) => {
            if crate::fuzzy::contains_chars(query, &p.0) {
                return Some(copy_index_list(&p.1));
            }
        },
        None => {},
    }
    let mut cands: Vec<usize> = Vec::new();
    let mut i: usize = 0;
    while i < contents_len
        invariant
            0 <= i <= contents_len,
            cands@.len() == i,
            forall|k: int| 0 <= k < i ==> cands@[k] == k,
        decreases contents_len - i,
    {
        cands.push(i);
        i += 1;
    }
    Some(cands)
}

/// Two strictly ordered index lists holding the same indices are the same
/// list. This is what makes the scan's contract deterministic: the order
/// leaves no freedom.
pub proof fn lemma_sorted_unique(
    contents: Seq<FilePath>,
    q: Seq<char>,
    r1: Seq<usize>,
    r2: Seq<usize>,
)
    requires
        forall|x: usize| r1.contains(x) <==> r2.contains(x),
        forall|k1: int, k2: int|
            0 <= k1 < k2 < r1.len() ==> idx_before(contents, q, r1[k1] as int, r1[k2] as int),
        forall|k1: int, k2: int|
            0 <= k1 < k2 < r2.len() ==> idx_before(contents, q, r2[k1] as int, r2[k2] as int),
    ensures
        r1 == r2,
    decreases r1.len(),
{
    if r1.len() == 0 {
        if r2.len() > 0 {
            assert(r2.contains(r2[0]));
            assert(r1.contains(r2[0]));
        }
        assert(r1 =~= r2);
    } else {
        let h1 = r1[0];
        let h2 = r2[0];
        assert(r1.contains(h1));
        assert(r2.contains(h1));
        assert(r2.contains(h2));
        assert(r1.contains(h2));
        assert(r2.len() > 0);
        if h1 != h2 {
            let k = choose|k: int| 0 <= k < r2.len() && r2[k] == h1;
            assert(k > 0);
            assert(idx_before(contents, q, h2 as int, h1 as int));
            let m = choose|m: int| 0 <= m < r1.len() && r1[m] == h2;
            assert(m > 0);
            assert(idx_before(contents, q, h1 as int, h2 as int));
            assert(false);
        }
        let t1 = r1.skip(1);
        let t2 = r2.skip(1);
        assert forall|x: usize| t1.contains(x) <==> t2.contains(x) by {
            if t1.contains(x) {
                let j = choose|j: int| 0 <= j < t1.len() && t1[j] == x;
                assert(r1[j + 1] == x);
                assert(r1.contains(x));
                assert(r2.contains(x));
                let k = choose|k: int| 0 <= k < r2.len() && r2[k] == x;
                if k == 0 {
                    assert(idx_before(contents, q, r1[0] as int, r1[j + 1] as int));
                    assert(false);
                }
                assert(t2[k - 1] == x);
                assert(t2.contains(x));
            }
            if t2.contains(x) {
                let j = choose|j: int| 0 <= j < t2.len() && t2[j] == x;
                assert(r2[j + 1] == x);
                assert(r2.contains(x));
                assert(r1.contains(x));
                let k = choose|k: int| 0 <= k < r1.len() && r1[k] == x;
                if k == 0 {
                    assert(idx_before(contents, q, r2[0] as int, r2[j + 1] as int));
                    assert(false);
                }
                assert(t1[k - 1] == x);
                assert(t1.contains(x));
            }
        }
        assert forall|k1: int, k2: int|
            0 <= k1 < k2 < t1.len() implies idx_before(
            contents,
            q,
            t1[k1] as int,
            t1[k2] as int,
        ) by {
            assert(t1[k1] == r1[k1 + 1]);
            assert(t1[k2] == r1[k2 + 1]);
        }
        assert forall|k1: int, k2: int|
            0 <= k1 < k2 < t2.len() implies idx_before(
            contents,
            q,
            t2[k1] as int,
            t2[k2] as int,
        ) by {
            assert(t2[k1] == r2[k1 + 1]);
            assert(t2[k2] == r2[k2 + 1]);
        }
        lemma_sorted_unique(contents, q, t1, t2);
        assert forall|i: int| 0 <= i < r1.len() implies r1[i] == r2[i] by {
            if i > 0 {
                assert(r1[i] == t1[i - 1]);
                assert(r2[i] == t2[i - 1]);
            }
        }
        assert(r1 =~= r2);
    }
}

/// Filter output is deterministic: the same content and query admit exactly
/// one ordered index list, however the candidates were scored or merged.
pub proof fn lemma_filter_deterministic(
    contents: Seq<FilePath>,
    q: Seq<char>,
    r1: Seq<usize>,
    r2: Seq<usize>,
)
    requires
        full_scan_ok(contents, q, r1),
        full_scan_ok(contents, q, r2),
    ensures
        r1 == r2,
{
    lemma_sorted_unique(contents, q, r1, r2);
}

/// Refinement is exact: when the previous result holds exactly the matches of
/// the old query, and the new query extends the old one as a substring,
/// rescanning only the previous survivors gives the same ordered list as a
/// full rescan of the same snapshot.
pub proof fn lemma_refinement_equals_rescan(
    contents: Seq<FilePath>,
    q1: Seq<char>,
    q2: Seq<char>,
    prev: Seq<usize>,
    refined: Seq<usize>,
    rescanned: Seq<usize>,
)
    requires
        is_substring_of(q1, q2),
        forall|x: usize| prev.contains(x) <==> matches_at(contents, q1, x as int),
        scan_result_ok(contents, q2, prev, refined),
        full_scan_ok(contents, q2, rescanned),
    ensures
        refined == rescanned,
{
    assert forall|x: usize| refined.contains(x) <==> rescanned.contains(x) by {
        if rescanned.contains(x) {
            assert(matches_at(contents, q2, x as int));
            lemma_match_monotone(q1, q2, contents[x as int].line_view());
            assert(matches_at(contents, q1, x as int));
            assert(prev.contains(x));
            assert(refined.contains(x));
        }
        if refined.contains(x) {
            assert(matches_at(contents, q2, x as int));
            assert(rescanned.contains(x));
        }
    }
    lemma_sorted_unique(contents, q2, refined, rescanned);
}

} // verus!
