//! Text as sequences of characters.

use vstd::prelude::*;
use vstd::string::*;

verus! {

/// The characters of `s`, in order.
pub fn chars_of(s: &str) -> (v: Vec<char>)
    ensures
        v@ == s@,
{
    let mut v: Vec<char> = Vec::new();
    for c in iter: s.chars()
        invariant
            iter.seq() == s@,
            v@ == s@.subrange(0, iter.index() as int),
    {
        v.push(c);
        assert(v@ =~= s@.subrange(0, iter.index() + 1));
    }
    assert(s@.subrange(0, s@.len() as int) == s@);
    v
}

/// Whether the characters `v` spell exactly the text `s`.
pub fn text_is(v: &Vec<char>, s: &str) -> (r: bool)
    ensures
        r == (v@ == s@),
{
    let n: usize = s.unicode_len();
    if v.len() != n {
        return false;
    }
    let mut i: usize = 0;
    while i < n
        invariant
            n == s@.len(),
            v@.len() == n,
            i <= n,
            forall|j: int| 0 <= j < i ==> v@[j] == s@[j],
        decreases n - i,
    {
        if v[i] != s.get_char(i) {
            return false;
        }
        i += 1;
    }
    assert(v@ =~= s@);
    true
}

/// The first position at or after `from` that holds `c`; the length of the
/// text where there is none.
pub open spec fn first_at(s: Seq<char>, c: char, from: int) -> int
    decreases s.len() - from,
{
    if from < 0 || from >= s.len() {
        s.len() as int
    } else if s[from] == c {
        from
    } else {
        first_at(s, c, from + 1)
    }
}

/// The position behind the last `c` of the text; 0 where there is none.
pub open spec fn after_last(s: Seq<char>, c: char) -> int
    decreases s.len(),
{
    if s.len() == 0 {
        0
    } else if s.last() == c {
        s.len() as int
    } else {
        after_last(s.drop_last(), c)
    }
}

/// Whether the text ends with `suffix`.
pub open spec fn ends_with(s: Seq<char>, suffix: Seq<char>) -> bool {
    s.len() >= suffix.len() && s.subrange(s.len() - suffix.len(), s.len() as int) == suffix
}

/// Finds the first `c` at or after `from` among the first `to` characters.
pub fn find_first(s: &Vec<char>, c: char, from: usize, to: usize) -> (r: usize)
    requires
        to <= s@.len(),
    ensures
        r == first_at(s@.subrange(0, to as int), c, from as int),
        r <= to,
        from <= to ==> from <= r,
        r < to ==> s@[r as int] == c,
{
    if from >= to {
        return to;
    }
    let ghost head = s@.subrange(0, to as int);
    let mut at: usize = from;
    while at < to && s[at] != c
        invariant
            from <= at <= to <= s@.len(),
            head == s@.subrange(0, to as int),
            first_at(head, c, from as int) == first_at(head, c, at as int),
        decreases to - at,
    {
        assert(head[at as int] == s@[at as int]);
        at += 1;
    }
    proof {
        if at < to {
            assert(head[at as int] == s@[at as int]);
        }
    }
    at
}

/// Finds the position behind the last `c` among the first `to` characters.
pub fn find_after_last(s: &Vec<char>, c: char, to: usize) -> (r: usize)
    requires
        to <= s@.len(),
    ensures
        r == after_last(s@.subrange(0, to as int), c),
        r <= to,
        r > 0 ==> s@[r - 1] == c,
{
    let mut at: usize = to;
    while at > 0 && s[at - 1] != c
        invariant
            at <= to <= s@.len(),
            after_last(s@.subrange(0, to as int), c) == after_last(s@.subrange(0, at as int), c),
        decreases at,
    {
        proof {
            let q = s@.subrange(0, at as int);
            assert(q.last() == s@[at - 1]);
            assert(q.drop_last() == s@.subrange(0, at - 1));
        }
        at -= 1;
    }
    proof {
        let q = s@.subrange(0, at as int);
        if at > 0 {
            assert(q.last() == s@[at - 1]);
        }
    }
    at
}

/// Whether the characters `v` end with the text `suffix`.
pub fn ends_with_text(v: &Vec<char>, suffix: &str) -> (r: bool)
    ensures
        r == ends_with(v@, suffix@),
{
    let m: usize = suffix.unicode_len();
    let n: usize = v.len();
    if n < m {
        return false;
    }
    let ghost tail = v@.subrange(n - m, n as int);
    let mut i: usize = 0;
    while i < m
        invariant
            m == suffix@.len(),
            n == v@.len(),
            m <= n,
            i <= m,
            tail == v@.subrange(n - m, n as int),
            forall|j: int| 0 <= j < i ==> tail[j] == suffix@[j],
        decreases m - i,
    {
        assert(tail[i as int] == v@[n - m + i]);
        if v[n - m + i] != suffix.get_char(i) {
            return false;
        }
        i += 1;
    }
    assert(tail =~= suffix@);
    true
}

/// A copy of the characters from `from` up to `to`.
pub fn copy_range(text: &Vec<char>, from: usize, to: usize) -> (r: Vec<char>)
    requires
        from <= to <= text@.len(),
    ensures
        r@ == text@.subrange(from as int, to as int),
{
    let mut out: Vec<char> = Vec::new();
    let mut i: usize = from;
    while i < to
        invariant
            from <= i <= to <= text@.len(),
            out@ == text@.subrange(from as int, i as int),
        decreases to - i,
    {
        out.push(text[i]);
        i += 1;
        assert(out@ =~= text@.subrange(from as int, i as int));
    }
    out
}

/// Joins two texts. The body calls `concat` of std on the slice of the
/// two; the contract says that the result is the first text followed by
/// the second.
#[verifier::external_body]
pub(crate) fn join(first: &str, second: &str) -> (r: String)
    ensures
        r@ == first@ + second@,
{
    [first, second].concat()
}

} // verus!
