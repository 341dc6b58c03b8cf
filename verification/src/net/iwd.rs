//! What `iwctl station` prints: the table of networks, with a rule above
//! and below its header, and the state of the station.

use vstd::prelude::*;
use vstd::slice::slice_subrange;
use crate::net::wifi::{is_connected_to, known_name, networks, Network, WifiNetwork};
use crate::text::chars::{chars_of, string_of};
use crate::text::scan::{
    contains, contains_text, count_char, count_of, has_prefix, same_text, starts_with,
    trim_start_char, trim_start_matches,
};
use crate::text::space::{
    is_whitespace, is_whitespace_char, split_words, trim, trim_chars, trim_start,
    trim_start_chars, words_of,
};
use crate::text::split::{join, joined, lines_of, split_lines, texts};

verus! {

/// A rule of the table.
pub open spec fn is_rule(line: Seq<char>) -> bool {
    contains_text(line, "----"@)
}

/// The number of rules among the first `n` lines.
pub open spec fn rules_before(lines: Seq<Seq<char>>, n: int) -> nat
    decreases n,
{
    if n <= 0 {
        0
    } else {
        rules_before(lines, n - 1) + if is_rule(lines[n - 1]) {
            1nat
        } else {
            0nat
        }
    }
}

/// The text without the asterisks and the white space at its end.
pub open spec fn without_signal(s: Seq<char>) -> Seq<char>
    decreases s.len(),
{
    if s.len() > 0 && (s.last() == '*' || is_whitespace(s.last())) {
        without_signal(s.drop_last())
    } else {
        s
    }
}

/// The percentage for a number of signal marks, at 25 to the mark and 255
/// at most.
pub open spec fn mark_level(marks: nat) -> int {
    if marks > 10 {
        255
    } else {
        (marks * 25) as int
    }
}

/// The row of the table on a line: the line without the white space around
/// it, without the mark of the connected network and the white space after
/// it.
pub open spec fn row_of(line: Seq<char>) -> Seq<char> {
    if is_marked(line) {
        trim_start(trim_start_char(trim_start(line), '>'))
    } else {
        trim(line)
    }
}

/// The line carries the mark of the connected network.
pub open spec fn is_marked(line: Seq<char>) -> bool {
    trim_start(line).len() > 0 && trim_start(line)[0] == '>'
}

/// The network that a row of the table describes. The signal marks are the
/// asterisks at the end of the row, the word before them is the security,
/// and the words before that are the name. A blank line, a row with fewer
/// than two words before the marks and the header describe none.
pub open spec fn station_entry(line: Seq<char>, connected: Option<Seq<char>>) -> Option<
    Network,
> {
    let row = row_of(line);
    let front = without_signal(row);
    let marks = count_of(row.skip(front.len() as int), '*');
    let words = words_of(front);
    if trim(line).len() == 0 || words.len() < 2 {
        None
    } else {
        let ssid = joined(words.drop_last(), seq![' ']);
        if ssid.len() == 0 || ssid == "Network name"@ {
            None
        } else {
            Some(
                Network {
                    ssid,
                    signal: mark_level(marks) as u8,
                    secured: words.last() != "open"@,
                    connected: connected == Some(ssid) || is_marked(line),
                },
            )
        }
    }
}

/// The networks of the table among the first `n` lines: those that the
/// lines after the second rule describe, rules left out.
pub open spec fn station_entries(lines: Seq<Seq<char>>, n: int, connected: Option<Seq<char>>)
    -> Seq<Network>
    decreases n,
{
    if n <= 0 {
        Seq::empty()
    } else {
        let before = station_entries(lines, n - 1, connected);
        if !is_rule(lines[n - 1]) && rules_before(lines, n - 1) >= 2 {
            match station_entry(lines[n - 1], connected) {
                Some(network) => before.push(network),
                None => before,
            }
        } else {
            before
        }
    }
}

/// The signal strength that a number of marks stands for.
pub fn marks_to_level(marks: usize) -> (level: u8)
    ensures
        level == mark_level(marks as nat),
{
    if marks > 10 {
        255
    } else {
        (marks * 25) as u8
    }
}

/// Reads one row of the table.
pub fn parse_station_line(line: &[char], connected: Option<&str>) -> (entry: Option<
    WifiNetwork,
>)
    ensures
        match entry {
            Some(network) => station_entry(line@, known_name(connected)) == Some(network@),
            None => station_entry(line@, known_name(connected)) is None,
        },
{
    let trimmed = trim_chars(line);
    if trimmed.len() == 0 {
        return None;
    }
    let lead = trim_start_chars(line);
    let marked = lead.len() > 0 && lead[0] == '>';
    let row = if marked {
        trim_start_chars(trim_start_matches(lead, '>'))
    } else {
        trimmed
    };
    let mut end: usize = row.len();
    proof {
        assert(row@.take(row@.len() as int) == row@);
    }
    while end > 0 && (row[end - 1] == '*' || is_whitespace_char(row[end - 1]))
        invariant
            end <= row@.len(),
            without_signal(row@) == without_signal(row@.take(end as int)),
        decreases end,
    {
        proof {
            assert(row@.take(end as int).drop_last() == row@.take(end - 1));
        }
        end -= 1;
    }
    let front = slice_subrange(row, 0, end);
    assert(front@ == row@.take(end as int));
    let tail = slice_subrange(row, end, row.len());
    assert(tail@ == row@.skip(end as int));
    let signal = marks_to_level(count_char(tail, '*'));
    let words = split_words(front);
    if words.len() < 2 {
        return None;
    }
    let name_words = slice_subrange(words.as_slice(), 0, words.len() - 1);
    assert(texts(name_words@) == texts(words@).drop_last());
    let space: Vec<char> = vec![' '];
    assert(space@ == seq![' ']);
    let name = join(name_words, space.as_slice());
    let header = chars_of("Network name");
    if name.len() == 0 || same_text(name.as_slice(), header.as_slice()) {
        return None;
    }
    let open = chars_of("open");
    let security = words[words.len() - 1];
    assert(texts(words@).last() == security@);
    let secured = !same_text(security, open.as_slice());
    let ssid = string_of(name.as_slice());
    let connected = is_connected_to(connected, &ssid) || marked;
    Some(WifiNetwork { ssid, signal, secured, connected })
}

/// Parse iwctl get-networks output.
pub fn parse_station_networks(output: &str, connected: Option<&str>) -> (list: Vec<WifiNetwork>)
    ensures
        networks(list@) == station_entries(
            lines_of(output@),
            lines_of(output@).len() as int,
            known_name(connected),
        ),
{
    let chars = chars_of(output);
    let lines = split_lines(chars.as_slice());
    let rule = chars_of("----");
    let mut list: Vec<WifiNetwork> = Vec::new();
    let mut rules: usize = 0;
    let mut i: usize = 0;
    assert(networks(list@) == Seq::<Network>::empty());
    while i < lines.len()
        invariant
            i <= lines@.len(),
            rule@ == "----"@,
            rules == rules_before(texts(lines@), i as int),
            rules <= i,
            networks(list@) == station_entries(texts(lines@), i as int, known_name(connected)),
        decreases lines@.len() - i,
    {
        let line = lines[i];
        assert(texts(lines@)[i as int] == line@);
        let ghost before = networks(list@);
        if contains(line, rule.as_slice()) {
            rules += 1;
        } else if rules >= 2 {
            match parse_station_line(line, connected) {
                Some(network) => {
                    list.push(network);
                    assert(networks(list@) == before.push(network@));
                },
                None => {},
            }
        }
        i += 1;
    }
    list
}

/// The name of the connected network on a line of the station's state: what
/// follows the first `Connected network`, without the white space around
/// it, where the line starts with these words after leading white space.
pub open spec fn connected_on(line: Seq<char>) -> Option<Seq<char>> {
    let text = trim(line);
    if starts_with(text, "Connected network"@) {
        Some(trim(text.skip("Connected network"@.len() as int)))
    } else {
        None
    }
}

/// The first name of a connected network among the lines from `from` on.
pub open spec fn first_connected(lines: Seq<Seq<char>>, from: int) -> Option<Seq<char>>
    decreases lines.len() - from,
{
    if from >= lines.len() {
        None
    } else if connected_on(lines[from]) is Some {
        connected_on(lines[from])
    } else {
        first_connected(lines, from + 1)
    }
}

/// Get currently connected network from iwctl station show.
pub fn get_connected_network(output: &str) -> (name: Option<String>)
    ensures
        match name {
            Some(text) => first_connected(lines_of(output@), 0) == Some(text@),
            None => first_connected(lines_of(output@), 0) is None,
        },
{
    let chars = chars_of(output);
    let lines = split_lines(chars.as_slice());
    let key = chars_of("Connected network");
    let mut i: usize = 0;
    while i < lines.len()
        invariant
            i <= lines@.len(),
            key@ == "Connected network"@,
            texts(lines@) == lines_of(output@),
            first_connected(texts(lines@), 0) == first_connected(texts(lines@), i as int),
        decreases lines@.len() - i,
    {
        let text = trim_chars(lines[i]);
        assert(texts(lines@)[i as int] == lines@[i as int]@);
        if has_prefix(text, key.as_slice()) {
            let rest = slice_subrange(text, key.len(), text.len());
            assert(rest@ == text@.skip("Connected network"@.len() as int));
            let name = string_of(trim_chars(rest));
            assert(connected_on(texts(lines@)[i as int]) == Some(name@));
            return Some(name);
        }
        i += 1;
    }
    None
}

} // verus!
