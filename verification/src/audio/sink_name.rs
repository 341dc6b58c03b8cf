//! The name of a combined sink, as the arguments of its module give it.

use vstd::prelude::*;
use vstd::slice::slice_subrange;
use crate::text::chars::{chars_of, string_of};
use crate::text::scan::{find_char, find_text, first_occurrence, index_of};
use crate::text::space::{is_whitespace_char, word_end};

verus! {

/// The value at the start of `rest`: what stands between quotes where
/// `rest` starts with a single or double quote that is closed later, and
/// else all up to the first white space.
pub open spec fn leading_value(rest: Seq<char>) -> Seq<char> {
    if rest.len() > 0 && (rest[0] == '"' || rest[0] == '\'') && index_of(rest, rest[0], 1)
        < rest.len() {
        rest.subrange(1, index_of(rest, rest[0], 1))
    } else {
        rest.take(word_end(rest, 0))
    }
}

/// The sink name in a module's arguments: the value after the first
/// `sink_name=`, and `combined` where the arguments hold none.
pub open spec fn sink_name_of(args: Seq<char>) -> Seq<char> {
    match first_occurrence(args, "sink_name="@, 0) {
        Some(at) => leading_value(args.skip(at + "sink_name="@.len())),
        None => "combined"@,
    }
}

/// The index of the first white space from `from` on, or the length.
pub fn find_space(s: &[char], from: usize) -> (at: usize)
    requires
        from <= s@.len(),
    ensures
        at == word_end(s@, from as int),
        from <= at <= s@.len(),
{
    let mut i: usize = from;
    while i < s.len() && !is_whitespace_char(s[i])
        invariant
            from <= i <= s@.len(),
            word_end(s@, from as int) == word_end(s@, i as int),
        decreases s@.len() - i,
    {
        i += 1;
    }
    i
}

/// Reads the value at the start of `rest`.
pub fn read_leading_value<'a>(rest: &'a [char]) -> (value: &'a [char])
    ensures
        value@ == leading_value(rest@),
{
    let n = rest.len();
    if n > 0 && (rest[0] == '"' || rest[0] == '\'') {
        let close = find_char(rest, rest[0], 1);
        if close < n {
            return slice_subrange(rest, 1, close);
        }
    }
    let end = find_space(rest, 0);
    slice_subrange(rest, 0, end)
}

/// Extract `sink_name` from module arguments string.
///
/// Handles various formats:
/// - `sink_name=value`
/// - `sink_name="quoted value"`
/// - `sink_name='single quoted'`
pub fn extract_sink_name(args: &str) -> (name: String)
    ensures
        name@ == sink_name_of(args@),
{
    let chars = chars_of(args);
    let key = chars_of("sink_name=");
    let n = chars.len();
    let m = key.len();
    match find_text(chars.as_slice(), key.as_slice(), 0) {
        Some(at) => {
            let rest = slice_subrange(chars.as_slice(), at + m, n);
            assert(rest@ == args@.skip(at + "sink_name="@.len()));
            string_of(read_leading_value(rest))
        },
        None => {
            let fallback = chars_of("combined");
            string_of(fallback.as_slice())
        },
    }
}

} // verus!
