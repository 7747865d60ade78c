use vstd::prelude::*;
use crate::laws::{
    lemma_contains_ascii_lowered, lemma_contains_empty, lemma_keep_all, lemma_keep_members,
    lemma_lines_ascii, law_empty_query,
};
use crate::lines::{
    chars_of, find_newline, lemma_next_newline_bounds, line_at, line_end, lines, lines_from,
};

verus! {

/// `q` occurs in `hay` starting at position `i`.
pub open spec fn occurs_at(hay: Seq<char>, q: Seq<char>, i: int) -> bool {
    &&& 0 <= i
    &&& i + q.len() <= hay.len()
    &&& forall|j: int| 0 <= j < q.len() ==> hay[i + j] == q[j]
}

/// `q` is a substring of `hay`.
pub open spec fn contains(hay: Seq<char>, q: Seq<char>) -> bool {
    exists|i: int| occurs_at(hay, q, i)
}

/// The lines of `ls` for which `p` holds, in their order.
pub open spec fn keep(ls: Seq<Seq<char>>, p: spec_fn(Seq<char>) -> bool) -> Seq<Seq<char>>
    decreases ls.len(),
{
    if ls.len() == 0 {
        seq![]
    } else if p(ls[0]) {
        seq![ls[0]] + keep(ls.drop_first(), p)
    } else {
        keep(ls.drop_first(), p)
    }
}

/// Lines that hold `q` exactly.
pub open spec fn containing(q: Seq<char>) -> spec_fn(Seq<char>) -> bool {
    |l: Seq<char>| contains(l, q)
}

/// Lines whose lowercase form holds `lowered_query`.
pub open spec fn containing_lowered(lowered_query: Seq<char>) -> spec_fn(Seq<char>) -> bool {
    |l: Seq<char>| contains(lower_of(l), lowered_query)
}

/// The texts of a sequence of string slices.
pub open spec fn views(r: Seq<&str>) -> Seq<Seq<char>> {
    r.map_values(|s: &str| s@)
}

/// What a case-sensitive search of `c` for `q` returns.
pub open spec fn search_result(q: Seq<char>, c: Seq<char>) -> Seq<Seq<char>> {
    keep(lines(c), containing(q))
}

/// What a case-insensitive search of `c` for `q` returns.
pub open spec fn search_case_insensitive_result(q: Seq<char>, c: Seq<char>) -> Seq<Seq<char>> {
    keep(lines(c), containing_lowered(lower_of(q)))
}

/// The Unicode lowercase form of a text, as `str::to_lowercase` gives it.
pub uninterp spec fn lower_of(s: Seq<char>) -> Seq<char>;

/// `r` is `s` with its ASCII capitals made small, one character for one.
pub open spec fn ascii_lowered(s: Seq<char>, r: Seq<char>) -> bool {
    &&& r.len() == s.len()
    &&& forall|i: int|
        0 <= i < s.len() ==> if 'A' <= #[trigger] s[i] <= 'Z' {
            r[i] as int == s[i] as int + 32
        } else {
            r[i] == s[i]
        }
}

/// Every character of `s` is ASCII.
pub open spec fn all_ascii(s: Seq<char>) -> bool {
    forall|i: int| 0 <= i < s.len() ==> (s[i] as int) < 128
}

/// Relies on str::to_lowercase: the Unicode lowercase form of the text. The
/// empty text stays empty, and on ASCII text only 'A' to 'Z' change, to 'a' to
/// 'z'.
#[verifier::external_body]
fn lowercase(s: &[char]) -> (r: Vec<char>)
    ensures
        r@ == lower_of(s@),
        s@.len() == 0 ==> r@.len() == 0,
        all_ascii(s@) ==> ascii_lowered(s@, r@),
{
    s.iter().collect::<String>().to_lowercase().chars().collect()
}

/// Whether `q` occurs in `h` at position `i`.
fn matches_at(h: &Vec<char>, i: usize, q: &Vec<char>) -> (r: bool)
    requires
        i + q@.len() <= h@.len(),
    ensures
        r == occurs_at(h@, q@, i as int),
{
    let n = h.len();
    let mut j: usize = 0;
    while j < q.len()
        invariant
            j <= q@.len(),
            n == h@.len(),
            i + q@.len() <= h@.len(),
            forall|k: int| 0 <= k < j ==> h@[i + k] == q@[k],
        decreases q@.len() - j,
    {
        if h[i + j] != q[j] {
            return false;
        }
        j += 1;
    }
    true
}

/// Whether `q` is a substring of the part of `h` from `lo` up to `hi`.
fn contains_in(h: &Vec<char>, lo: usize, hi: usize, q: &Vec<char>) -> (r: bool)
    requires
        lo <= hi <= h@.len(),
    ensures
        r == contains(h@.subrange(lo as int, hi as int), q@),
{
    let ghost part = h@.subrange(lo as int, hi as int);
    if q.len() > hi - lo {
        assert forall|k: int| !occurs_at(part, q@, k) by {}
        return false;
    }
    let last = hi - q.len();
    let mut i = lo;
    loop
        invariant
            lo <= i <= last,
            last + q@.len() == hi,
            hi <= h@.len(),
            part == h@.subrange(lo as int, hi as int),
            forall|k: int| 0 <= k < i - lo ==> !occurs_at(part, q@, k),
        decreases last - i,
    {
        let found = matches_at(h, i, q);
        if found {
            assert(occurs_at(part, q@, i - lo));
            return true;
        }
        assert forall|k: int| 0 <= k < i + 1 - lo implies !occurs_at(part, q@, k) by {
            if k == i - lo {
                if occurs_at(part, q@, k) {
                    assert forall|j: int| 0 <= j < q@.len() implies h@[i + j] == q@[j] by {
                        assert(part[k + j] == q@[j]);
                    }
                }
            }
        }
        if i == last {
            return false;
        }
        i += 1;
    }
}

proof fn lemma_keep_cons(x: Seq<char>, rest: Seq<Seq<char>>, p: spec_fn(Seq<char>) -> bool)
    ensures
        keep(seq![x] + rest, p) == if p(x) {
            seq![x] + keep(rest, p)
        } else {
            keep(rest, p)
        },
{
    assert((seq![x] + rest).drop_first() =~= rest);
}

/// Every line of `content` that holds `query`, in order. Lines end at a line
/// feed, or a carriage return and line feed.
pub fn search<'a>(query: &str, content: &'a str) -> (r: Vec<&'a str>)
    ensures
        views(r@) == search_result(query@, content@),
        query@.len() == 0 ==> views(r@) == lines(content@),
{
    proof {
        if query@.len() == 0 {
            assert(query@ =~= seq![]);
            law_empty_query(content@);
        }
    }
    let q = chars_of(query);
    let c = chars_of(content);
    let mut r: Vec<&'a str> = Vec::new();
    let mut start: usize = 0;
    while start < c.len()
        invariant
            start <= c@.len(),
            c@ == content@,
            q@ == query@,
            views(r@) + keep(lines_from(c@, start as int), containing(q@)) == keep(
                lines(c@),
                containing(q@),
            ),
        decreases c@.len() - start,
    {
        let e = find_newline(&c, start);
        proof {
            lemma_next_newline_bounds(c@, start as int);
        }
        let end = line_end(&c, start, e);
        let found = contains_in(&c, start, end, &q);
        let ghost line = line_at(c@, start as int);
        let ghost rest = lines_from(c@, e + 1);
        let ghost before = views(r@);
        proof {
            lemma_keep_cons(line, rest, containing(q@));
            assert(lines_from(c@, start as int) == seq![line] + rest);
        }
        if found {
            r.push(content.substring_char(start, end));
            assert(views(r@) =~= before.push(line));
            assert(before + (seq![line] + keep(rest, containing(q@))) =~= before.push(line)
                + keep(rest, containing(q@)));
        }
        if e < c.len() {
            start = e + 1;
        } else {
            start = c.len();
        }
    }
    r
}

/// Every line of `content` whose lowercase form holds `lowered_query`, in
/// order.
pub fn search_lowered<'a>(lowered_query: &Vec<char>, content: &'a str) -> (r: Vec<&'a str>)
    ensures
        views(r@) == keep(lines(content@), containing_lowered(lowered_query@)),
        forall|k: int|
            0 <= k < lines(content@).len() && all_ascii(#[trigger] lines(content@)[k])
                ==> ascii_lowered(lines(content@)[k], lower_of(lines(content@)[k])),
{
    let c = chars_of(content);
    let ghost p = containing_lowered(lowered_query@);
    let ghost mut done: Seq<Seq<char>> = seq![];
    let mut r: Vec<&'a str> = Vec::new();
    let mut start: usize = 0;
    while start < c.len()
        invariant
            start <= c@.len(),
            c@ == content@,
            p == containing_lowered(lowered_query@),
            views(r@) + keep(lines_from(c@, start as int), p) == keep(lines(c@), p),
            done + lines_from(c@, start as int) == lines(c@),
            forall|k: int|
                0 <= k < done.len() && all_ascii(#[trigger] done[k]) ==> ascii_lowered(
                    done[k],
                    lower_of(done[k]),
                ),
        decreases c@.len() - start,
    {
        let e = find_newline(&c, start);
        proof {
            lemma_next_newline_bounds(c@, start as int);
        }
        let end = line_end(&c, start, e);
        let lowered = lowercase(&c.as_slice()[start..end]);
        let found = contains_in(&lowered, 0, lowered.len(), lowered_query);
        let ghost line = line_at(c@, start as int);
        let ghost rest = lines_from(c@, e + 1);
        let ghost before = views(r@);
        proof {
            assert(lowered@.subrange(0, lowered@.len() as int) =~= lowered@);
            lemma_keep_cons(line, rest, p);
            assert(lines_from(c@, start as int) == seq![line] + rest);
        }
        if found {
            r.push(content.substring_char(start, end));
            assert(views(r@) =~= before.push(line));
            assert(before + (seq![line] + keep(rest, p)) =~= before.push(line) + keep(rest, p));
        }
        proof {
            assert(done + (seq![line] + rest) =~= done.push(line) + rest);
            done = done.push(line);
        }
        if e < c.len() {
            start = e + 1;
        } else {
            start = c.len();
        }
    }
    proof {
        assert(done =~= lines(c@));
    }
    r
}

/// Every line of `content` that holds `query` when both are lowercased, in
/// order.
pub fn search_case_insensitive<'a>(query: &str, content: &'a str) -> (r: Vec<&'a str>)
    ensures
        views(r@) == search_case_insensitive_result(query@, content@),
        query@.len() == 0 ==> views(r@) == lines(content@),
        all_ascii(query@) && all_ascii(content@) ==> forall|l: Seq<char>|
            #[trigger] search_result(query@, content@).contains(l) ==> views(r@).contains(l),
{
    let q = chars_of(query);
    let lowered_query = lowercase(q.as_slice());
    let r = search_lowered(&lowered_query, content);
    proof {
        let ls = lines(content@);
        let p = containing_lowered(lowered_query@);
        if query@.len() == 0 {
            assert forall|k: int| 0 <= k < ls.len() implies #[trigger] p(ls[k]) by {
                lemma_contains_empty(lower_of(ls[k]), lowered_query@);
            }
            lemma_keep_all(ls, p);
        }
        if all_ascii(query@) && all_ascii(content@) {
            lemma_keep_members(ls, containing(query@));
            lemma_keep_members(ls, p);
            lemma_lines_ascii(content@, 0);
            assert forall|l: Seq<char>| #[trigger]
                search_result(query@, content@).contains(l) implies views(r@).contains(l) by {
                let k = choose|k: int| 0 <= k < ls.len() && ls[k] == l;
                assert(all_ascii(ls[k]));
                lemma_contains_ascii_lowered(l, query@, lower_of(l), lowered_query@);
                assert(p(l));
            }
        }
    }
    r
}

} // verus!
