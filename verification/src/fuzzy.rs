//! The tie to fuzzy subsequence matching.
//!
//! The scoring itself is the skim matcher's; the library pins down exactly
//! when a line matches at all (an ordered, possibly non-contiguous character
//! alignment, ASCII-case-insensitive unless the query holds an ASCII capital),
//! names the score, and proves that narrowing a query can only shrink the
//! match set.

use vstd::prelude::*;

verus! {

/// ASCII capital letter.
pub open spec fn is_ascii_upper(c: char) -> bool {
    65 <= c as u32 <= 90
}

/// Equality up to ASCII case, as `char::eq_ignore_ascii_case` has it.
pub open spec fn chars_ci_equal(a: char, b: char) -> bool {
    ||| a == b
    ||| (is_ascii_upper(a) && a as u32 + 32 == b as u32)
    ||| (is_ascii_upper(b) && b as u32 + 32 == a as u32)
}

/// Character equality as the matcher sees it: exact when case-sensitive.
pub open spec fn chars_match(a: char, b: char, case_sensitive: bool) -> bool {
    if case_sensitive {
        a == b
    } else {
        chars_ci_equal(a, b)
    }
}

/// `pattern` appears in `choice` in order, not necessarily contiguously.
pub open spec fn is_subseq_with(pattern: Seq<char>, choice: Seq<char>, cs: bool) -> bool
    decreases pattern.len() + choice.len(),
{
    if pattern.len() == 0 {
        true
    } else if choice.len() == 0 {
        false
    } else {
        ||| (chars_match(pattern[0], choice[0], cs) && is_subseq_with(
            pattern.skip(1),
            choice.skip(1),
            cs,
        ))
        ||| is_subseq_with(pattern, choice.skip(1), cs)
    }
}

/// Some character of `p` is an ASCII capital.
pub open spec fn has_upper(p: Seq<char>) -> bool {
    exists|i: int| 0 <= i < p.len() && is_ascii_upper(p[i])
}

/// Whether the matcher accepts `pattern` against `choice` at all: smart case,
/// so the alignment is exact when the pattern holds an ASCII capital and
/// ASCII-case-insensitive otherwise.
pub open spec fn is_match(pattern: Seq<char>, choice: Seq<char>) -> bool {
    is_subseq_with(pattern, choice, has_upper(pattern))
}

/// `sub` stands somewhere inside `sup` as a contiguous run.
pub open spec fn is_substring_of(sub: Seq<char>, sup: Seq<char>) -> bool {
    exists|i: int|
        0 <= i && i + sub.len() <= sup.len() && #[trigger] sup.subrange(i, i + sub.len()) == sub
}

/// The score the skim matcher gives a line for a query; a function of the two
/// strings alone.
pub uninterp spec fn fuzzy_score_of(choice: Seq<char>, pattern: Seq<char>) -> Option<i64>;

/// Relies on `fuzzy_matcher::skim::SkimMatcherV2` in its default
/// configuration: `fuzzy_match` scores a choice exactly when the pattern is an
/// ordered subsequence of it (character equality exact when the pattern holds
/// an ASCII capital, ASCII-case-insensitive otherwise), an empty pattern
/// scores 0, and the score depends on the two strings alone.
#[verifier::external_body]
pub(crate) fn fuzzy_score(choice: &Vec<char>, pattern: &Vec<char>) -> (r: Option<i64>)
    ensures
        r == fuzzy_score_of(choice@, pattern@),
        r.is_some() == is_match(pattern@, choice@),
        pattern@.len() == 0 ==> r == Some(0i64),
{
    let c: String = choice.iter().collect();
    let p: String = pattern.iter().collect();
    let m = fuzzy_matcher::skim::SkimMatcherV2::default();
    fuzzy_matcher::FuzzyMatcher::fuzzy_match(&m, &c, &p)
}

/// Whether `sup` holds `sub` as a contiguous run.
pub fn contains_chars(sup: &Vec<char>, sub: &Vec<char>) -> (r: bool)
    ensures
        r == is_substring_of(sub@, sup@),
{
    if sub.len() > sup.len() {
        assert(!is_substring_of(sub@, sup@));
        return false;
    }
    if sub.len() == 0 {
        proof {
            assert(sup@.subrange(0, 0 + sub@.len() as int) =~= sub@);
            assert(is_substring_of(sub@, sup@));
        }
        return true;
    }
    let mut i: usize = 0;
    while i <= sup.len() - sub.len()
        invariant
            0 < sub@.len() <= sup@.len(),
            0 <= i <= sup@.len() - sub@.len() + 1,
            forall|k: int|
                0 <= k < i ==> #[trigger] sup@.subrange(k, k + sub@.len() as int) != sub@,
        decreases sup@.len() - sub@.len() - i + 1,
    {
        let mut j: usize = 0;
        let mut hit = true;
        while j < sub.len()
            invariant
                0 <= j <= sub@.len(),
                0 <= i,
                0 < sub@.len(),
                i + sub@.len() <= sup@.len(),
                sup@.len() <= usize::MAX,
                hit ==> forall|k: int| 0 <= k < j ==> sup@[i + k] == sub@[k],
                !hit ==> sup@.subrange(i as int, i + sub@.len() as int) != sub@,
            decreases sub@.len() - j,
        {
            if sup[i + j] != sub[j] {
                assert(sup@.subrange(i as int, i + sub@.len() as int)[j as int] != sub@[j as int]);
                hit = false;
                j = sub.len();
            } else {
                j += 1;
            }
        }
        if hit {
            assert(sup@.subrange(i as int, i + sub@.len() as int) =~= sub@);
            return true;
        }
        i += 1;
    }
    assert forall|k: int| !(0 <= k && k + sub@.len() <= sup@.len()
        && #[trigger] sup@.subrange(k, k + sub@.len() as int) == sub@) by {
        if 0 <= k && k + sub@.len() <= sup@.len() {
            assert(k < i);
            assert(sup@.subrange(k, k + sub@.len() as int) != sub@);
        }
    }
    false
}

/// A prefix is an exact subsequence.
proof fn lemma_prefix_subseq(sub: Seq<char>, sup: Seq<char>)
    requires
        sub.len() <= sup.len(),
        sup.subrange(0, sub.len() as int) == sub,
    ensures
        is_subseq_with(sub, sup, true),
    decreases sub.len(),
{
    if sub.len() > 0 {
        assert(sub[0] == sup.subrange(0, sub.len() as int)[0]);
        assert(sup.skip(1).subrange(0, sub.len() - 1) =~= sub.skip(1)) by {
            assert forall|k: int| 0 <= k < sub.len() - 1 implies sup.skip(1).subrange(
                0,
                sub.len() - 1,
            )[k] == sub.skip(1)[k] by {
                assert(sub[k + 1] == sup.subrange(0, sub.len() as int)[k + 1]);
            }
        }
        lemma_prefix_subseq(sub.skip(1), sup.skip(1));
    }
}

/// A contiguous run inside a sequence is an exact subsequence of it.
pub proof fn lemma_substring_subseq(sub: Seq<char>, sup: Seq<char>)
    requires
        is_substring_of(sub, sup),
    ensures
        is_subseq_with(sub, sup, true),
    decreases sup.len(),
{
    let i = choose|i: int|
        0 <= i && i + sub.len() <= sup.len() && #[trigger] sup.subrange(i, i + sub.len()) == sub;
    if sub.len() == 0 {
    } else if i == 0 {
        lemma_prefix_subseq(sub, sup);
    } else {
        assert(sup.skip(1).subrange(i - 1, i - 1 + sub.len()) =~= sub) by {
            assert forall|k: int| 0 <= k < sub.len() implies sup.skip(1).subrange(
                i - 1,
                i - 1 + sub.len(),
            )[k] == sub[k] by {
                assert(sub[k] == sup.subrange(i, i + sub.len())[k]);
            }
        }
        assert(is_substring_of(sub, sup.skip(1)));
        lemma_substring_subseq(sub, sup.skip(1));
    }
}

/// An exact subsequence is also a case-insensitive one.
pub proof fn lemma_subseq_weaken(p: Seq<char>, c: Seq<char>)
    requires
        is_subseq_with(p, c, true),
    ensures
        is_subseq_with(p, c, false),
    decreases p.len() + c.len(),
{
    if p.len() > 0 && c.len() > 0 {
        if chars_match(p[0], c[0], true) && is_subseq_with(p.skip(1), c.skip(1), true) {
            lemma_subseq_weaken(p.skip(1), c.skip(1));
        } else {
            lemma_subseq_weaken(p, c.skip(1));
        }
    }
}

/// Exact subsequences compose with subsequences under either case rule.
pub proof fn lemma_subseq_trans(a: Seq<char>, b: Seq<char>, c: Seq<char>, cs: bool)
    requires
        is_subseq_with(a, b, true),
        is_subseq_with(b, c, cs),
    ensures
        is_subseq_with(a, c, cs),
    decreases b.len() + c.len(),
{
    if a.len() == 0 {
    } else {
        assert(b.len() > 0);
        assert(c.len() > 0);
        if chars_match(b[0], c[0], cs) && is_subseq_with(b.skip(1), c.skip(1), cs) {
            if chars_match(a[0], b[0], true) && is_subseq_with(a.skip(1), b.skip(1), true) {
                lemma_subseq_trans(a.skip(1), b.skip(1), c.skip(1), cs);
                assert(chars_match(a[0], c[0], cs));
            } else {
                assert(is_subseq_with(a, b.skip(1), true));
                lemma_subseq_trans(a, b.skip(1), c.skip(1), cs);
            }
        } else {
            assert(is_subseq_with(b, c.skip(1), cs));
            lemma_subseq_trans(a, b, c.skip(1), cs);
        }
    }
}

/// A capital inside a substring is a capital inside the whole.
pub proof fn lemma_has_upper_substring(q1: Seq<char>, q2: Seq<char>)
    requires
        is_substring_of(q1, q2),
        has_upper(q1),
    ensures
        has_upper(q2),
{
    let i = choose|i: int|
        0 <= i && i + q1.len() <= q2.len() && #[trigger] q2.subrange(i, i + q1.len()) == q1;
    let j = choose|j: int| 0 <= j < q1.len() && is_ascii_upper(q1[j]);
    assert(q2[i + j] == q2.subrange(i, i + q1.len())[j]);
    assert(is_ascii_upper(q2[i + j]));
}

/// Narrowing the query can only shrink the match set: a line matched by a
/// query matches every substring of that query.
pub proof fn lemma_match_monotone(q1: Seq<char>, q2: Seq<char>, line: Seq<char>)
    requires
        is_substring_of(q1, q2),
        is_match(q2, line),
    ensures
        is_match(q1, line),
{
    lemma_substring_subseq(q1, q2);
    let cs2 = has_upper(q2);
    lemma_subseq_trans(q1, q2, line, cs2);
    if has_upper(q1) {
        lemma_has_upper_substring(q1, q2);
    } else {
        if cs2 {
            lemma_subseq_weaken(q1, line);
        }
    }
}

} // verus!
