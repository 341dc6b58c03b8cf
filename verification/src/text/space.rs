//! White space: trimming it and splitting at it.

use vstd::prelude::*;
use vstd::slice::slice_subrange;
use crate::text::split::texts;

verus! {

/// The characters with the Unicode property `White_Space`.
pub open spec fn is_whitespace(c: char) -> bool {
    let code = c as u32;
    ||| 0x0009 <= code <= 0x000D
    ||| code == 0x0020
    ||| code == 0x0085
    ||| code == 0x00A0
    ||| code == 0x1680
    ||| 0x2000 <= code <= 0x200A
    ||| code == 0x2028
    ||| code == 0x2029
    ||| code == 0x202F
    ||| code == 0x205F
    ||| code == 0x3000
}

/// Whether `c` is white space.
pub fn is_whitespace_char(c: char) -> (b: bool)
    ensures
        b == is_whitespace(c),
{
    let code: u32 = c as u32;
    (0x0009 <= code && code <= 0x000D) || code == 0x0020 || code == 0x0085 || code == 0x00A0
        || code == 0x1680 || (0x2000 <= code && code <= 0x200A) || code == 0x2028 || code
        == 0x2029 || code == 0x202F || code == 0x205F || code == 0x3000
}

/// The text without the white space at its start.
pub open spec fn trim_start(s: Seq<char>) -> Seq<char>
    decreases s.len(),
{
    if s.len() > 0 && is_whitespace(s[0]) {
        trim_start(s.skip(1))
    } else {
        s
    }
}

/// The text without the white space at its end.
pub open spec fn trim_end(s: Seq<char>) -> Seq<char>
    decreases s.len(),
{
    if s.len() > 0 && is_whitespace(s.last()) {
        trim_end(s.drop_last())
    } else {
        s
    }
}

/// The text without the white space at both ends.
pub open spec fn trim(s: Seq<char>) -> Seq<char> {
    trim_end(trim_start(s))
}

/// Cuts the white space off the start of `s`.
pub fn trim_start_chars<'a>(s: &'a [char]) -> (out: &'a [char])
    ensures
        out@ == trim_start(s@),
{
    let mut start: usize = 0;
    proof {
        assert(s@.skip(0) == s@);
    }
    while start < s.len() && is_whitespace_char(s[start])
        invariant
            start <= s@.len(),
            trim_start(s@) == trim_start(s@.skip(start as int)),
        decreases s@.len() - start,
    {
        proof {
            assert(s@.skip(start as int).skip(1) == s@.skip(start + 1));
        }
        start += 1;
    }
    let out = slice_subrange(s, start, s.len());
    assert(out@ == s@.skip(start as int));
    out
}

/// Cuts the white space off the end of `s`.
pub fn trim_end_chars<'a>(s: &'a [char]) -> (out: &'a [char])
    ensures
        out@ == trim_end(s@),
{
    let mut end: usize = s.len();
    proof {
        assert(s@.take(s@.len() as int) == s@);
    }
    while end > 0 && is_whitespace_char(s[end - 1])
        invariant
            end <= s@.len(),
            trim_end(s@) == trim_end(s@.take(end as int)),
        decreases end,
    {
        proof {
            assert(s@.take(end as int).drop_last() == s@.take(end - 1));
        }
        end -= 1;
    }
    let out = slice_subrange(s, 0, end);
    assert(out@ == s@.take(end as int));
    out
}

/// Cuts the white space off both ends of `s`.
pub fn trim_chars<'a>(s: &'a [char]) -> (out: &'a [char])
    ensures
        out@ == trim(s@),
{
    trim_end_chars(trim_start_chars(s))
}

/// The length of the run of characters that are no white space, from
/// `from` on.
pub open spec fn word_end(s: Seq<char>, from: int) -> int
    decreases s.len() - from,
{
    if from >= s.len() || is_whitespace(s[from]) {
        from
    } else {
        word_end(s, from + 1)
    }
}

/// The words of a text from `from` on: the longest runs of characters that
/// are no white space.
pub open spec fn words_from(s: Seq<char>, from: int) -> Seq<Seq<char>>
    decreases s.len() - from,
{
    if from >= s.len() {
        Seq::empty()
    } else if is_whitespace(s[from]) {
        words_from(s, from + 1)
    } else {
        let end = word_end(s, from);
        if from < end <= s.len() {
            seq![s.subrange(from, end)] + words_from(s, end)
        } else {
            Seq::empty()
        }
    }
}

/// The words of a text.
pub open spec fn words_of(s: Seq<char>) -> Seq<Seq<char>> {
    words_from(s, 0)
}

/// A word that starts at `from` ends behind `from` and within the text.
pub proof fn lemma_word_end(s: Seq<char>, from: int)
    requires
        0 <= from < s.len(),
        !is_whitespace(s[from]),
    ensures
        from < word_end(s, from) <= s.len(),
    decreases s.len() - from,
{
    if from + 1 < s.len() && !is_whitespace(s[from + 1]) {
        lemma_word_end(s, from + 1);
    } else {
        assert(word_end(s, from + 1) == from + 1);
    }
}

/// Cuts a text into its words.
pub fn split_words<'a>(s: &'a [char]) -> (words: Vec<&'a [char]>)
    ensures
        texts(words@) == words_of(s@),
{
    let n = s.len();
    let mut words: Vec<&'a [char]> = Vec::new();
    let mut i: usize = 0;
    while i < n
        invariant
            n == s@.len(),
            i <= n,
            texts(words@) + words_from(s@, i as int) == words_of(s@),
        decreases n - i,
    {
        if is_whitespace_char(s[i]) {
            i += 1;
        } else {
            let start = i;
            proof {
                lemma_word_end(s@, start as int);
            }
            i += 1;
            while i < n && !is_whitespace_char(s[i])
                invariant
                    n == s@.len(),
                    start < i <= n,
                    word_end(s@, start as int) == word_end(s@, i as int),
                decreases n - i,
            {
                i += 1;
            }
            let word = slice_subrange(s, start, i);
            let ghost before = texts(words@);
            words.push(word);
            assert(texts(words@) == before.push(word@));
            assert(before.push(word@) + words_from(s@, i as int) == before + (seq![word@]
                + words_from(s@, i as int)));
        }
    }
    assert(words_from(s@, n as int) == Seq::<Seq<char>>::empty());
    words
}

} // verus!
