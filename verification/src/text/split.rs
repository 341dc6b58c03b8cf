//! Cutting a text into lines and fields.

use vstd::prelude::*;
use vstd::slice::slice_subrange;
use crate::text::scan::{find_char, index_of};

verus! {

/// The texts that a vector of pieces holds, in order.
pub open spec fn texts(pieces: Seq<&[char]>) -> Seq<Seq<char>> {
    Seq::new(pieces.len(), |i: int| pieces[i]@)
}

/// The fields of `s` between occurrences of `d`. There is always at least
/// one field; fields may be empty.
pub open spec fn split_on(s: Seq<char>, d: char) -> Seq<Seq<char>>
    decreases s.len(),
{
    let at = index_of(s, d, 0);
    if 0 <= at < s.len() {
        seq![s.take(at)] + split_on(s.skip(at + 1), d)
    } else {
        seq![s]
    }
}

/// A line without the carriage return at its end, if it has one.
pub open spec fn strip_cr(line: Seq<char>) -> Seq<char> {
    if line.len() > 0 && line.last() == '\r' {
        line.drop_last()
    } else {
        line
    }
}

/// The lines of a text. A line ends at a line feed, and a carriage return
/// directly before that line feed belongs to the line ending. The last line
/// needs no line ending; a text that ends with one has no empty line after
/// it.
pub open spec fn lines_of(s: Seq<char>) -> Seq<Seq<char>>
    decreases s.len(),
{
    if s.len() == 0 {
        Seq::empty()
    } else {
        let at = index_of(s, '\n', 0);
        if 0 <= at < s.len() {
            seq![strip_cr(s.take(at))] + lines_of(s.skip(at + 1))
        } else {
            seq![s]
        }
    }
}

/// Cuts `s` into the fields between occurrences of `d`.
pub fn split_char<'a>(s: &'a [char], d: char) -> (fields: Vec<&'a [char]>)
    ensures
        texts(fields@) == split_on(s@, d),
        fields@.len() >= 1,
{
    let n = s.len();
    let mut fields: Vec<&'a [char]> = Vec::new();
    let mut start: usize = 0;
    proof {
        assert(s@.skip(0) == s@);
    }
    loop
        invariant
            n == s@.len(),
            start <= n,
            texts(fields@) + split_on(s@.skip(start as int), d) == split_on(s@, d),
        decreases n - start,
    {
        let at = find_char(s, d, start);
        let ghost rest = s@.skip(start as int);
        proof {
            lemma_index_in_rest(s@, d, start as int);
        }
        let field = slice_subrange(s, start, at);
        assert(field@ == rest.take(at - start));
        let ghost before = texts(fields@);
        fields.push(field);
        assert(texts(fields@) == before.push(field@));
        if at >= n {
            assert(split_on(rest, d) == seq![rest]);
            assert(rest.take(at - start) == rest);
            return fields;
        }
        assert(rest.skip(at - start + 1) == s@.skip(at + 1));
        assert(before.push(field@) + split_on(s@.skip(at + 1), d) == before + (seq![field@]
            + split_on(s@.skip(at + 1), d)));
        start = at + 1;
    }
}

/// Searching the rest of a text from `start` on finds what a search from
/// `start` in the whole text finds.
pub proof fn lemma_index_in_rest(s: Seq<char>, c: char, start: int)
    requires
        0 <= start <= s.len(),
    ensures
        index_of(s.skip(start), c, 0) == index_of(s, c, start) - start,
{
    lemma_index_from(s, c, start, start);
}

proof fn lemma_index_from(s: Seq<char>, c: char, start: int, from: int)
    requires
        0 <= start <= from <= s.len(),
    ensures
        index_of(s.skip(start), c, from - start) == index_of(s, c, from) - start,
    decreases s.len() - from,
{
    if from < s.len() {
        assert(s.skip(start)[from - start] == s[from]);
        if s[from] != c {
            lemma_index_from(s, c, start, from + 1);
        }
    }
}

/// Cuts a text into its lines.
pub fn split_lines<'a>(s: &'a [char]) -> (lines: Vec<&'a [char]>)
    ensures
        texts(lines@) == lines_of(s@),
{
    let n = s.len();
    let mut lines: Vec<&'a [char]> = Vec::new();
    let mut start: usize = 0;
    proof {
        assert(s@.skip(0) == s@);
    }
    while start < n
        invariant
            n == s@.len(),
            start <= n,
            texts(lines@) + lines_of(s@.skip(start as int)) == lines_of(s@),
        decreases n - start,
    {
        let at = find_char(s, '\n', start);
        let ghost rest = s@.skip(start as int);
        let ghost before = texts(lines@);
        proof {
            lemma_index_in_rest(s@, '\n', start as int);
        }
        if at >= n {
            let line = slice_subrange(s, start, n);
            assert(line@ == rest);
            lines.push(line);
            assert(texts(lines@) == before.push(rest));
            assert(lines_of(rest) == seq![rest]);
            return lines;
        }
        let end = if at > start && s[at - 1] == '\r' {
            at - 1
        } else {
            at
        };
        let line = slice_subrange(s, start, end);
        assert(rest.take(at - start) == s@.subrange(start as int, at as int));
        assert(line@ == strip_cr(rest.take(at - start)));
        lines.push(line);
        assert(texts(lines@) == before.push(line@));
        assert(rest.skip(at - start + 1) == s@.skip(at + 1));
        assert(before.push(line@) + lines_of(s@.skip(at + 1)) == before + (seq![line@] + lines_of(
            s@.skip(at + 1),
        )));
        start = at + 1;
    }
    assert(lines_of(s@.skip(start as int)) == Seq::<Seq<char>>::empty());
    lines
}

/// The pieces in a row, with `separator` between each two.
pub open spec fn joined(pieces: Seq<Seq<char>>, separator: Seq<char>) -> Seq<char>
    decreases pieces.len(),
{
    if pieces.len() == 0 {
        Seq::empty()
    } else if pieces.len() == 1 {
        pieces[0]
    } else {
        joined(pieces.drop_last(), separator) + separator + pieces.last()
    }
}

/// Appends the characters of `piece` to `out`.
pub fn push_all(out: &mut Vec<char>, piece: &[char])
    ensures
        final(out)@ == old(out)@ + piece@,
{
    let ghost start = out@;
    let mut i: usize = 0;
    while i < piece.len()
        invariant
            i <= piece@.len(),
            out@ == start + piece@.take(i as int),
        decreases piece@.len() - i,
    {
        out.push(piece[i]);
        assert(piece@.take(i + 1) == piece@.take(i as int).push(piece@[i as int]));
        i += 1;
    }
    assert(piece@.take(piece@.len() as int) == piece@);
}

/// Puts the pieces in a row, with `separator` between each two.
pub fn join(pieces: &[&[char]], separator: &[char]) -> (out: Vec<char>)
    ensures
        out@ == joined(texts(pieces@), separator@),
{
    let mut out: Vec<char> = Vec::new();
    let mut i: usize = 0;
    while i < pieces.len()
        invariant
            i <= pieces@.len(),
            out@ == joined(texts(pieces@).take(i as int), separator@),
        decreases pieces@.len() - i,
    {
        let ghost before = texts(pieces@).take(i as int);
        let ghost now = texts(pieces@).take(i + 1);
        proof {
            assert(now.drop_last() == before);
            assert(now.last() == pieces@[i as int]@);
        }
        if i > 0 {
            push_all(&mut out, separator);
        } else {
            assert(now[0] == pieces@[0]@);
        }
        push_all(&mut out, pieces[i]);
        i += 1;
    }
    assert(texts(pieces@).take(pieces@.len() as int) == texts(pieces@));
    out
}

} // verus!
