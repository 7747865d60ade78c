use vstd::prelude::*;
use crate::lines::{lemma_next_newline_bounds, line_at, lines, lines_from, next_newline, strip_cr};
use crate::search::{
    all_ascii, ascii_lowered, contains, containing, containing_lowered, keep, lower_of, occurs_at,
    search_case_insensitive_result, search_result,
};

verus! {

/// `a` is `b` with some elements left out, the rest in the same order.
pub open spec fn is_subsequence(a: Seq<Seq<char>>, b: Seq<Seq<char>>) -> bool {
    exists|idx: Seq<int>|
        {
            &&& idx.len() == a.len()
            &&& forall|k: int| 0 <= k < a.len() ==> 0 <= #[trigger] idx[k] < b.len() && a[k] == b[idx[k]]
            &&& forall|k1: int, k2: int| 0 <= k1 < k2 < a.len() ==> idx[k1] < idx[k2]
        }
}

/// A line is kept exactly when it is one of the lines and passes the test.
pub proof fn lemma_keep_members(ls: Seq<Seq<char>>, p: spec_fn(Seq<char>) -> bool)
    ensures
        forall|x: Seq<char>| #[trigger] keep(ls, p).contains(x) <==> ls.contains(x) && p(x),
    decreases ls.len(),
{
    if ls.len() > 0 {
        lemma_keep_members(ls.drop_first(), p);
        assert forall|x: Seq<char>| #[trigger] keep(ls, p).contains(x) <==> ls.contains(x) && p(
            x,
        ) by {
            if ls.contains(x) && x != ls[0] {
                let k = choose|k: int| 0 <= k < ls.len() && ls[k] == x;
                assert(ls.drop_first()[k - 1] == x);
            }
            if ls.drop_first().contains(x) {
                let k = choose|k: int| 0 <= k < ls.drop_first().len() && ls.drop_first()[k] == x;
                assert(ls[k + 1] == x);
            }
            if p(ls[0]) {
                let kept = keep(ls.drop_first(), p);
                if kept.contains(x) {
                    let k = choose|k: int| 0 <= k < kept.len() && kept[k] == x;
                    assert((seq![ls[0]] + kept)[k + 1] == x);
                }
                if (seq![ls[0]] + kept).contains(x) && x != ls[0] {
                    let k = choose|k: int| 0 <= k < kept.len() + 1 && (seq![ls[0]] + kept)[k] == x;
                    assert(kept[k - 1] == x);
                }
                assert((seq![ls[0]] + kept)[0] == ls[0]);
            }
            assert(ls[0] == ls[0]);
        }
    }
}

/// What is kept is a subsequence of what was there.
pub proof fn lemma_keep_subsequence(ls: Seq<Seq<char>>, p: spec_fn(Seq<char>) -> bool)
    ensures
        is_subsequence(keep(ls, p), ls),
    decreases ls.len(),
{
    let kept = keep(ls, p);
    if ls.len() == 0 {
        assert(kept.len() == 0);
        let idx = Seq::<int>::empty();
        assert(idx.len() == kept.len());
    } else {
        let tail = ls.drop_first();
        lemma_keep_subsequence(tail, p);
        let sub = keep(tail, p);
        let idx0 = choose|idx: Seq<int>|
            {
                &&& idx.len() == sub.len()
                &&& forall|k: int| 0 <= k < sub.len() ==> 0 <= #[trigger] idx[k] < tail.len() && sub[k] == tail[idx[k]]
                &&& forall|k1: int, k2: int| 0 <= k1 < k2 < sub.len() ==> idx[k1] < idx[k2]
            };
        let shifted = idx0.map_values(|i: int| i + 1);
        if p(ls[0]) {
            let idx = seq![0int] + shifted;
            assert forall|k: int| 0 <= k < kept.len() implies 0 <= #[trigger] idx[k] < ls.len()
                && kept[k] == ls[idx[k]] by {
                if k > 0 {
                    assert(idx[k] == idx0[k - 1] + 1);
                    assert(kept[k] == sub[k - 1]);
                }
            }
            assert forall|k1: int, k2: int| 0 <= k1 < k2 < kept.len() implies idx[k1] < idx[k2] by {
                if k1 > 0 {
                    assert(idx[k1] == idx0[k1 - 1] + 1);
                }
                assert(idx[k2] == idx0[k2 - 1] + 1);
            }
            assert(idx.len() == kept.len());
        } else {
            let idx = shifted;
            assert forall|k: int| 0 <= k < kept.len() implies 0 <= #[trigger] idx[k] < ls.len()
                && kept[k] == ls[idx[k]] by {
                assert(idx[k] == idx0[k] + 1);
            }
            assert forall|k1: int, k2: int| 0 <= k1 < k2 < kept.len() implies idx[k1] < idx[k2] by {
                assert(idx[k1] == idx0[k1] + 1);
                assert(idx[k2] == idx0[k2] + 1);
            }
            assert(idx.len() == kept.len());
        }
    }
}

/// Where every line passes the test, all are kept.
pub proof fn lemma_keep_all(ls: Seq<Seq<char>>, p: spec_fn(Seq<char>) -> bool)
    requires
        forall|k: int| 0 <= k < ls.len() ==> #[trigger] p(ls[k]),
    ensures
        keep(ls, p) == ls,
    decreases ls.len(),
{
    if ls.len() > 0 {
        assert(p(ls[0]));
        lemma_keep_all(ls.drop_first(), p);
        assert(seq![ls[0]] + ls.drop_first() =~= ls);
    }
}

/// The empty text is a substring of every text.
pub proof fn lemma_contains_empty(hay: Seq<char>, q: Seq<char>)
    requires
        q.len() == 0,
    ensures
        contains(hay, q),
{
    assert(occurs_at(hay, q, 0));
}

/// Each line of an ASCII text is ASCII.
pub proof fn lemma_lines_ascii(c: Seq<char>, i: int)
    requires
        all_ascii(c),
    ensures
        forall|k: int| 0 <= k < lines_from(c, i).len() ==> all_ascii(#[trigger] lines_from(c, i)[k]),
    decreases c.len() + 1 - i,
{
    if 0 <= i < c.len() {
        lemma_next_newline_bounds(c, i);
        let e = next_newline(c, i);
        lemma_lines_ascii(c, e + 1);
        let raw = c.subrange(i, e);
        assert(all_ascii(raw));
        assert(all_ascii(strip_cr(raw)));
        assert(all_ascii(line_at(c, i)));
        assert forall|k: int| 0 <= k < lines_from(c, i).len() implies all_ascii(
            #[trigger] lines_from(c, i)[k],
        ) by {
            if k > 0 {
                assert(lines_from(c, i)[k] == lines_from(c, e + 1)[k - 1]);
            }
        }
    }
}

/// ASCII lowercasing keeps a substring a substring.
pub proof fn lemma_contains_ascii_lowered(
    l: Seq<char>,
    q: Seq<char>,
    lowered_line: Seq<char>,
    lowered_query: Seq<char>,
)
    requires
        contains(l, q),
        ascii_lowered(l, lowered_line),
        ascii_lowered(q, lowered_query),
    ensures
        contains(lowered_line, lowered_query),
{
    let i = choose|i: int| occurs_at(l, q, i);
    assert forall|j: int| 0 <= j < lowered_query.len() implies lowered_line[i + j]
        == lowered_query[j] by {
        assert(l[i + j] == q[j]);
        assert(lowered_line[i + j] as int == lowered_query[j] as int);
    }
    assert(occurs_at(lowered_line, lowered_query, i));
}

/// Case-sensitive search returns exactly the lines that hold the query: each
/// line it returns holds it, and each line it leaves out does not.
pub proof fn law_search_exact(q: Seq<char>, c: Seq<char>)
    ensures
        forall|l: Seq<char>| #[trigger] search_result(q, c).contains(l) ==> contains(l, q),
        forall|l: Seq<char>|
            lines(c).contains(l) && !(#[trigger] search_result(q, c).contains(l)) ==> !contains(
                l,
                q,
            ),
{
    lemma_keep_members(lines(c), containing(q));
}

/// Both searches return lines in the order in which they stand in the text.
pub proof fn law_search_keeps_order(q: Seq<char>, c: Seq<char>)
    ensures
        is_subsequence(search_result(q, c), lines(c)),
        is_subsequence(search_case_insensitive_result(q, c), lines(c)),
{
    lemma_keep_subsequence(lines(c), containing(q));
    lemma_keep_subsequence(
        lines(c),
        containing_lowered(lower_of(q)),
    );
}

/// Case-insensitive search gives the same result each time it runs on the
/// same query and text.
pub proof fn law_case_insensitive_deterministic(
    q: Seq<char>,
    c: Seq<char>,
    first: Seq<Seq<char>>,
    second: Seq<Seq<char>>,
)
    requires
        first == search_case_insensitive_result(q, c),
        second == search_case_insensitive_result(q, c),
    ensures
        first == second,
{
}

/// Case-sensitive search for the empty query returns every line.
pub proof fn law_empty_query(c: Seq<char>)
    ensures
        search_result(seq![], c) == lines(c),
{
    let p = containing(seq![]);
    assert forall|k: int| 0 <= k < lines(c).len() implies #[trigger] p(lines(c)[k]) by {
        lemma_contains_empty(lines(c)[k], seq![]);
    }
    lemma_keep_all(lines(c), p);
}

} // verus!
