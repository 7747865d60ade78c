use vstd::prelude::*;
use vstd::std_specs::iter::IteratorSpec;

verus! {

/// The first position at or after `i` that holds a line feed, or the length
/// of `c` when there is none.
pub open spec fn next_newline(c: Seq<char>, i: int) -> int
    decreases c.len() - i,
{
    if i >= c.len() {
        c.len() as int
    } else if c[i] == '\n' {
        i
    } else {
        next_newline(c, i + 1)
    }
}

/// Drops one carriage return that ends `l`.
pub open spec fn strip_cr(l: Seq<char>) -> Seq<char> {
    if l.len() > 0 && l.last() == '\r' {
        l.drop_last()
    } else {
        l
    }
}

pub proof fn lemma_next_newline_bounds(c: Seq<char>, i: int)
    requires
        0 <= i <= c.len(),
    ensures
        i <= next_newline(c, i) <= c.len(),
        next_newline(c, i) < c.len() ==> c[next_newline(c, i)] == '\n',
        forall|k: int| i <= k < next_newline(c, i) ==> c[k] != '\n',
    decreases c.len() - i,
{
    if i < c.len() && c[i] != '\n' {
        lemma_next_newline_bounds(c, i + 1);
    }
}

/// The line that starts at position `i` of `c`.
pub open spec fn line_at(c: Seq<char>, i: int) -> Seq<char> {
    let e = next_newline(c, i);
    if e < c.len() {
        strip_cr(c.subrange(i, e))
    } else {
        c.subrange(i, e)
    }
}

#[via_fn]
proof fn lines_from_decreases(c: Seq<char>, i: int) {
    if 0 <= i < c.len() {
        lemma_next_newline_bounds(c, i);
    }
}

/// The lines of `c` from position `i` on. A line ends at a line feed, which
/// it does not hold, nor a carriage return just before it. The last line
/// need not end with a line feed, and a final line feed starts no new line.
pub open spec fn lines_from(c: Seq<char>, i: int) -> Seq<Seq<char>>
    decreases c.len() + 1 - i via lines_from_decreases
{
    if i < 0 || i >= c.len() {
        seq![]
    } else {
        seq![line_at(c, i)] + lines_from(c, next_newline(c, i) + 1)
    }
}

/// The lines of the text `c`, in order.
pub open spec fn lines(c: Seq<char>) -> Seq<Seq<char>> {
    lines_from(c, 0)
}

/// The position of the first line feed at or after `from`, or the length of
/// `c`.
pub fn find_newline(c: &Vec<char>, from: usize) -> (e: usize)
    requires
        from <= c@.len(),
    ensures
        e == next_newline(c@, from as int),
{
    let mut i = from;
    while i < c.len()
        invariant
            from <= i <= c@.len(),
            next_newline(c@, from as int) == next_newline(c@, i as int),
        decreases c@.len() - i,
    {
        if c[i] == '\n' {
            return i;
        }
        i += 1;
    }
    i
}

/// Where the line that starts at `start` ends, given the line feed (or the
/// end of the text) at `e` that closes it.
pub fn line_end(c: &Vec<char>, start: usize, e: usize) -> (end: usize)
    requires
        start <= e <= c@.len(),
        e == next_newline(c@, start as int),
    ensures
        start <= end <= e,
        c@.subrange(start as int, end as int) == line_at(c@, start as int),
{
    if e < c.len() && e > start && c[e - 1] == '\r' {
        assert(c@.subrange(start as int, e as int).drop_last() =~= c@.subrange(
            start as int,
            e - 1,
        ));
        e - 1
    } else {
        e
    }
}

/// The characters of `s`, in order.
pub fn chars_of(s: &str) -> (r: Vec<char>)
    ensures
        r@ == s@,
{
    broadcast use vstd::string::axiom_spec_iter, vstd::string::next_postcondition;

    let mut it = s.chars();
    let mut out: Vec<char> = Vec::new();
    loop
        invariant
            out@ + it.remaining() == s@,
            it.decrease() is Some,
        ensures
            out@ == s@,
        decreases it.decrease()->0,
    {
        match it.next() {
            Some(ch) => out.push(ch),
            None => {
                assert(out@ =~= s@);
                break;
            },
        }
    }
    out
}

} // verus!
