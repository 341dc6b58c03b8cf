//! Searching and trimming.

use vstd::prelude::*;
use vstd::slice::slice_subrange;

verus! {

/// The least index from `from` on at which `s` holds `c`, or the length of
/// `s` where there is none.
pub open spec fn index_of(s: Seq<char>, c: char, from: int) -> int
    decreases s.len() - from,
{
    if from >= s.len() {
        s.len() as int
    } else if s[from] == c {
        from
    } else {
        index_of(s, c, from + 1)
    }
}

/// `index_of` lies between `from` and the length, no index before it from
/// `from` on holds `c`, and where it is an index it holds `c`.
pub proof fn lemma_index_of(s: Seq<char>, c: char, from: int)
    requires
        0 <= from <= s.len(),
    ensures
        from <= index_of(s, c, from) <= s.len(),
        forall|j: int| from <= j < index_of(s, c, from) ==> s[j] != c,
        index_of(s, c, from) < s.len() ==> s[index_of(s, c, from)] == c,
    decreases s.len() - from,
{
    if from < s.len() && s[from] != c {
        lemma_index_of(s, c, from + 1);
    }
}

/// Finds the first `c` in `s` from `from` on; gives the length of `s` where
/// there is none.
pub fn find_char(s: &[char], c: char, from: usize) -> (at: usize)
    requires
        from <= s@.len(),
    ensures
        at == index_of(s@, c, from as int),
        from <= at <= s@.len(),
        forall|j: int| from <= j < at ==> s@[j] != c,
        at < s@.len() ==> s@[at as int] == c,
{
    proof {
        lemma_index_of(s@, c, from as int);
    }
    let mut i: usize = from;
    while i < s.len() && s[i] != c
        invariant
            from <= i <= s@.len(),
            index_of(s@, c, from as int) == index_of(s@, c, i as int),
        decreases s@.len() - i,
    {
        i += 1;
    }
    i
}

/// The text without the run of `c` at its end.
pub open spec fn trim_end_char(s: Seq<char>, c: char) -> Seq<char>
    decreases s.len(),
{
    if s.len() > 0 && s.last() == c {
        trim_end_char(s.drop_last(), c)
    } else {
        s
    }
}

/// What is left of a text without the run of `c` at its end: it is the
/// start of the text, all that is cut off is `c`, and it does not end with
/// `c`.
pub proof fn lemma_trim_end_char(s: Seq<char>, c: char)
    ensures
        trim_end_char(s, c).len() <= s.len(),
        trim_end_char(s, c) == s.take(trim_end_char(s, c).len() as int),
        forall|j: int| trim_end_char(s, c).len() <= j < s.len() ==> s[j] == c,
        trim_end_char(s, c).len() > 0 ==> trim_end_char(s, c).last() != c,
    decreases s.len(),
{
    if s.len() > 0 && s.last() == c {
        lemma_trim_end_char(s.drop_last(), c);
        let t = trim_end_char(s, c);
        assert(s.drop_last().take(t.len() as int) == s.take(t.len() as int));
        assert forall|j: int| t.len() <= j < s.len() implies s[j] == c by {
            if j < s.len() - 1 {
                assert(s.drop_last()[j] == s[j]);
            }
        }
    } else {
        assert(s.take(s.len() as int) == s);
    }
}

/// The text without the run of `c` at its start.
pub open spec fn trim_start_char(s: Seq<char>, c: char) -> Seq<char>
    decreases s.len(),
{
    if s.len() > 0 && s[0] == c {
        trim_start_char(s.skip(1), c)
    } else {
        s
    }
}

/// Cuts the run of `c` off the end of `s`.
pub fn trim_end_matches<'a>(s: &'a [char], c: char) -> (out: &'a [char])
    ensures
        out@ == trim_end_char(s@, c),
{
    let mut end: usize = s.len();
    proof {
        assert(s@.take(s@.len() as int) == s@);
    }
    while end > 0 && s[end - 1] == c
        invariant
            end <= s@.len(),
            trim_end_char(s@, c) == trim_end_char(s@.take(end as int), c),
        decreases end,
    {
        proof {
            assert(s@.take(end as int).drop_last() == s@.take(end - 1));
        }
        end -= 1;
    }
    let out = slice_subrange(s, 0, end);
    assert(out@ == s@.take(end as int));
    out
}

/// Cuts the run of `c` off the start of `s`.
pub fn trim_start_matches<'a>(s: &'a [char], c: char) -> (out: &'a [char])
    ensures
        out@ == trim_start_char(s@, c),
{
    let mut start: usize = 0;
    proof {
        assert(s@.skip(0) == s@);
    }
    while start < s.len() && s[start] == c
        invariant
            start <= s@.len(),
            trim_start_char(s@, c) == trim_start_char(s@.skip(start as int), c),
        decreases s@.len() - start,
    {
        proof {
            assert(s@.skip(start as int).skip(1) == s@.skip(start + 1));
        }
        start += 1;
    }
    let out = slice_subrange(s, start, s.len());
    assert(out@ == s@.skip(start as int));
    out
}

/// `pattern` stands in `s` at index `at`.
pub open spec fn occurs_at(s: Seq<char>, pattern: Seq<char>, at: int) -> bool {
    &&& 0 <= at
    &&& at + pattern.len() <= s.len()
    &&& s.subrange(at, at + pattern.len()) == pattern
}

/// `s` starts with `pattern`.
pub open spec fn starts_with(s: Seq<char>, pattern: Seq<char>) -> bool {
    occurs_at(s, pattern, 0)
}

/// `pattern` stands somewhere in `s`.
pub open spec fn contains_text(s: Seq<char>, pattern: Seq<char>) -> bool {
    exists|at: int| occurs_at(s, pattern, at)
}

/// The least index from `from` on at which `pattern` stands in `s`.
pub open spec fn first_occurrence(s: Seq<char>, pattern: Seq<char>, from: int) -> Option<int>
    decreases s.len() + 1 - from,
{
    if from + pattern.len() > s.len() {
        None
    } else if occurs_at(s, pattern, from) {
        Some(from)
    } else {
        first_occurrence(s, pattern, from + 1)
    }
}

/// Where the search finds nothing from `from` on, the pattern stands at no
/// index from `from` on; where it finds an index, the pattern stands there
/// and at no index between.
pub proof fn lemma_first_occurrence(s: Seq<char>, pattern: Seq<char>, from: int)
    requires
        0 <= from,
    ensures
        match first_occurrence(s, pattern, from) {
            Some(at) => from <= at && occurs_at(s, pattern, at) && forall|j: int|
                from <= j < at ==> !occurs_at(s, pattern, j),
            None => forall|j: int| from <= j ==> !occurs_at(s, pattern, j),
        },
    decreases s.len() + 1 - from,
{
    if from + pattern.len() <= s.len() && !occurs_at(s, pattern, from) {
        lemma_first_occurrence(s, pattern, from + 1);
    }
}

/// A text contains a pattern exactly where the search from the start finds
/// it.
pub proof fn lemma_contains_is_found(s: Seq<char>, pattern: Seq<char>)
    ensures
        contains_text(s, pattern) == first_occurrence(s, pattern, 0) is Some,
{
    lemma_first_occurrence(s, pattern, 0);
}

/// Whether `pattern` stands in `s` at index `at`.
pub fn matches_at(s: &[char], pattern: &[char], at: usize) -> (b: bool)
    ensures
        b == occurs_at(s@, pattern@, at as int),
{
    let n = s.len();
    let m = pattern.len();
    if at > n || m > n - at {
        return false;
    }
    let mut k: usize = 0;
    while k < m
        invariant
            n == s@.len(),
            m == pattern@.len(),
            at + m <= s@.len(),
            k <= m,
            forall|j: int| 0 <= j < k ==> s@[at + j] == pattern@[j],
        decreases m - k,
    {
        if s[at + k] != pattern[k] {
            assert(s@.subrange(at as int, at + m)[k as int] != pattern@[k as int]);
            return false;
        }
        k += 1;
    }
    assert(s@.subrange(at as int, at + m) =~= pattern@);
    true
}

/// Whether `s` starts with `pattern`.
pub fn has_prefix(s: &[char], pattern: &[char]) -> (b: bool)
    ensures
        b == starts_with(s@, pattern@),
{
    matches_at(s, pattern, 0)
}

/// Whether two texts are the same.
pub fn same_text(a: &[char], b: &[char]) -> (same: bool)
    ensures
        same == (a@ == b@),
{
    if a.len() != b.len() {
        return false;
    }
    let same = matches_at(a, b, 0);
    proof {
        assert(a@.subrange(0, a@.len() as int) == a@);
    }
    same
}

/// Finds the first place from `from` on at which `pattern` stands in `s`.
pub fn find_text(s: &[char], pattern: &[char], from: usize) -> (found: Option<usize>)
    ensures
        found is Some == first_occurrence(s@, pattern@, from as int) is Some,
        found is Some ==> first_occurrence(s@, pattern@, from as int) == Some(found->0 as int),
        found is Some ==> from <= found->0 && found->0 + pattern@.len() <= s@.len(),
{
    let n = s.len();
    let m = pattern.len();
    if from > n {
        return None;
    }
    let mut i: usize = from;
    while m <= n - i
        invariant
            n == s@.len(),
            m == pattern@.len(),
            from <= i <= n,
            first_occurrence(s@, pattern@, from as int) == first_occurrence(
                s@,
                pattern@,
                i as int,
            ),
        decreases n - i,
    {
        if matches_at(s, pattern, i) {
            return Some(i);
        }
        if i == n {
            assert(s@.subrange(n as int, n as int) =~= pattern@);
            return None;
        }
        i += 1;
    }
    None
}

/// Whether `pattern` stands somewhere in `s`.
pub fn contains(s: &[char], pattern: &[char]) -> (b: bool)
    ensures
        b == contains_text(s@, pattern@),
{
    proof {
        lemma_contains_is_found(s@, pattern@);
    }
    find_text(s, pattern, 0).is_some()
}

/// How often `c` occurs in `s`.
pub open spec fn count_of(s: Seq<char>, c: char) -> nat
    decreases s.len(),
{
    if s.len() == 0 {
        0
    } else {
        count_of(s.drop_last(), c) + if s.last() == c {
            1nat
        } else {
            0nat
        }
    }
}

/// Counts how often `c` occurs in `s`.
pub fn count_char(s: &[char], c: char) -> (count: usize)
    ensures
        count == count_of(s@, c),
{
    let mut count: usize = 0;
    let mut i: usize = 0;
    while i < s.len()
        invariant
            i <= s@.len(),
            count == count_of(s@.take(i as int), c),
            count <= i,
        decreases s@.len() - i,
    {
        proof {
            assert(s@.take(i + 1).drop_last() == s@.take(i as int));
        }
        if s[i] == c {
            count += 1;
        }
        i += 1;
    }
    proof {
        assert(s@.take(s@.len() as int) == s@);
    }
    count
}

} // verus!
