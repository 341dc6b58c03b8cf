//! The network list of `iwctl`: a table with the name, the security and the
//! signal strength, the last as one to four asterisks.

use vstd::prelude::*;
use vstd::slice::slice_subrange;
use crate::net::signal::{marks_to_percent, percent_of_marks};
use crate::net::wifi::{is_connected_to, known_name, networks, Network, WifiNetwork};
use crate::text::chars::{chars_of, string_of};
use crate::text::scan::{
    contains, contains_text, count_char, count_of, find_char, index_of, same_text,
    trim_start_char, trim_start_matches,
};
use crate::text::space::{split_words, trim, trim_chars, words_of};
use crate::text::split::{join, joined, lines_of, split_lines, texts};

verus! {

/// A line of the table that describes no network: a rule, a blank line or
/// the header.
pub open spec fn is_table_frame(line: Seq<char>) -> bool {
    contains_text(line, "---"@) || trim(line).len() == 0 || contains_text(
        line,
        "Network name"@,
    )
}

/// A word that belongs to the security or signal column.
pub open spec fn is_column_word(word: Seq<char>) -> bool {
    word == "open"@ || word == "psk"@ || word == "8021x"@ || index_of(word, '*', 0)
        < word.len()
}

/// The number of words at the start that belong to the name: those before
/// the first word of the security or signal column.
pub open spec fn name_length(words: Seq<Seq<char>>, from: int) -> int
    decreases words.len() - from,
{
    if from >= words.len() || is_column_word(words[from]) {
        from
    } else {
        name_length(words, from + 1)
    }
}

/// The line without the mark of the connected network and without the white
/// space around the rest.
pub open spec fn table_row(line: Seq<char>) -> Seq<char> {
    trim(trim_start_char(line, '>'))
}

/// The network that a line describes. A frame line, a line of fewer than two
/// words and a line that starts with a column word describe none.
pub open spec fn iwctl_entry(line: Seq<char>, connected: Option<Seq<char>>) -> Option<Network> {
    let row = table_row(line);
    let words = words_of(row);
    let ssid = joined(words.take(name_length(words, 0)), seq![' ']);
    if is_table_frame(line) || words.len() < 2 || ssid.len() == 0 {
        None
    } else {
        Some(
            Network {
                ssid,
                signal: percent_of_marks(count_of(row, '*')) as u8,
                secured: !contains_text(row, "open"@),
                connected: (line.len() > 0 && line[0] == '>') || connected == Some(ssid),
            },
        )
    }
}

/// The networks that the lines describe, in the order of the lines.
pub open spec fn iwctl_entries(lines: Seq<Seq<char>>, connected: Option<Seq<char>>) -> Seq<
    Network,
> {
    lines.filter_map(|line: Seq<char>| iwctl_entry(line, connected))
}

/// Whether a line of the table describes no network.
pub fn is_frame_line(line: &[char]) -> (b: bool)
    ensures
        b == is_table_frame(line@),
{
    let rule = chars_of("---");
    let header = chars_of("Network name");
    contains(line, rule.as_slice()) || trim_chars(line).len() == 0 || contains(
        line,
        header.as_slice(),
    )
}

/// Whether a word belongs to the security or signal column.
pub fn is_column(word: &[char]) -> (b: bool)
    ensures
        b == is_column_word(word@),
{
    let open = chars_of("open");
    let psk = chars_of("psk");
    let enterprise = chars_of("8021x");
    same_text(word, open.as_slice()) || same_text(word, psk.as_slice()) || same_text(
        word,
        enterprise.as_slice(),
    ) || find_char(word, '*', 0) < word.len()
}

/// Reads one line of the table.
pub fn parse_iwctl_line(line: &[char], connected: Option<&str>) -> (entry: Option<WifiNetwork>)
    ensures
        match entry {
            Some(network) => iwctl_entry(line@, known_name(connected)) == Some(network@),
            None => iwctl_entry(line@, known_name(connected)) is None,
        },
{
    if is_frame_line(line) {
        return None;
    }
    let marked = line.len() > 0 && line[0] == '>';
    let row = trim_chars(trim_start_matches(line, '>'));
    let signal = marks_to_percent(count_char(row, '*'));
    let words = split_words(row);
    if words.len() < 2 {
        return None;
    }
    let mut k: usize = 0;
    while k < words.len() && !is_column(words[k])
        invariant
            k <= words@.len(),
            name_length(texts(words@), 0) == name_length(texts(words@), k as int),
        decreases words@.len() - k,
    {
        k += 1;
    }
    let name_words = slice_subrange(words.as_slice(), 0, k);
    assert(texts(name_words@) == texts(words@).take(k as int));
    let space: Vec<char> = vec![' '];
    assert(space@ == seq![' ']);
    let name = join(name_words, space.as_slice());
    if name.len() == 0 {
        return None;
    }
    let open = chars_of("open");
    let secured = !contains(row, open.as_slice());
    let ssid = string_of(name.as_slice());
    let connected = marked || is_connected_to(connected, &ssid);
    Some(WifiNetwork { ssid, signal, secured, connected })
}

/// Parse iwctl network list output.
/// Signal strength is shown as asterisks (* to ****).
pub fn parse_iwctl_networks(output: &str, connected: Option<&str>) -> (list: Vec<WifiNetwork>)
    ensures
        networks(list@) == iwctl_entries(lines_of(output@), known_name(connected)),
{
    let chars = chars_of(output);
    let lines = split_lines(chars.as_slice());
    let mut list: Vec<WifiNetwork> = Vec::new();
    let mut i: usize = 0;
    while i < lines.len()
        invariant
            i <= lines@.len(),
            networks(list@) == iwctl_entries(texts(lines@).take(i as int), known_name(connected)),
        decreases lines@.len() - i,
    {
        let ghost before = networks(list@);
        proof {
            assert(texts(lines@).take(i + 1).drop_last() == texts(lines@).take(i as int));
            assert(texts(lines@).take(i + 1).last() == lines@[i as int]@);
        }
        match parse_iwctl_line(lines[i], connected) {
            Some(network) => {
                list.push(network);
                assert(networks(list@) == before + seq![network@]);
            },
            None => {},
        }
        i += 1;
    }
    assert(texts(lines@).take(lines@.len() as int) == texts(lines@));
    list
}

} // verus!
