//! Fields set apart by a delimiter that a backslash can escape.

use vstd::prelude::*;
use crate::text::chars::{chars_of, string_of, string_texts};

verus! {

/// The fields of `s` from index `from` on, where `current` is what has been
/// read of the first of them.
///
/// A backslash takes the character after it into the field as it is, be it
/// a delimiter or another backslash; a backslash at the very end counts for
/// nothing. Any other delimiter ends the field.
pub open spec fn escaped_fields_from(s: Seq<char>, delimiter: char, from: int, current: Seq<char>)
    -> Seq<Seq<char>>
    decreases s.len() - from,
{
    if from >= s.len() {
        seq![current]
    } else if s[from] == '\\' {
        if from + 1 < s.len() {
            escaped_fields_from(s, delimiter, from + 2, current.push(s[from + 1]))
        } else {
            seq![current]
        }
    } else if s[from] == delimiter {
        seq![current] + escaped_fields_from(s, delimiter, from + 1, Seq::empty())
    } else {
        escaped_fields_from(s, delimiter, from + 1, current.push(s[from]))
    }
}

/// The fields of `s`.
pub open spec fn escaped_fields(s: Seq<char>, delimiter: char) -> Seq<Seq<char>> {
    escaped_fields_from(s, delimiter, 0, Seq::empty())
}

/// Splits a text by a delimiter, respecting backslash escaping.
pub fn split_escaped_chars(s: &[char], delimiter: char) -> (fields: Vec<String>)
    ensures
        string_texts(fields@) == escaped_fields(s@, delimiter),
        fields@.len() >= 1,
{
    let n = s.len();
    let mut fields: Vec<String> = Vec::new();
    let mut current: Vec<char> = Vec::new();
    let mut i: usize = 0;
    while i < n
        invariant
            n == s@.len(),
            i <= n,
            string_texts(fields@) + escaped_fields_from(s@, delimiter, i as int, current@)
                == escaped_fields(s@, delimiter),
        decreases n - i,
    {
        let c = s[i];
        if c == '\\' {
            if i + 1 < n {
                current.push(s[i + 1]);
                i += 2;
            } else {
                i += 1;
            }
        } else if c == delimiter {
            let field = string_of(current.as_slice());
            let ghost before = string_texts(fields@);
            fields.push(field);
            assert(string_texts(fields@) == before.push(current@));
            assert(before.push(current@) + escaped_fields_from(
                s@,
                delimiter,
                i + 1,
                Seq::empty(),
            ) == before + (seq![current@] + escaped_fields_from(
                s@,
                delimiter,
                i + 1,
                Seq::empty(),
            )));
            current = Vec::new();
            i += 1;
        } else {
            current.push(c);
            i += 1;
        }
    }
    let field = string_of(current.as_slice());
    let ghost before = string_texts(fields@);
    fields.push(field);
    assert(string_texts(fields@) == before.push(current@));
    fields
}

/// Split a string by delimiter, respecting backslash escaping.
pub fn split_escaped(s: &str, delimiter: char) -> (fields: Vec<String>)
    ensures
        string_texts(fields@) == escaped_fields(s@, delimiter),
        fields@.len() >= 1,
{
    let chars = chars_of(s);
    split_escaped_chars(chars.as_slice(), delimiter)
}

} // verus!
