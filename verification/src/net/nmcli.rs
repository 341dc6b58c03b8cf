//! The terse output of `nmcli`: one network to the line, as
//! `SSID:SIGNAL:SECURITY:ACTIVE`, with `\:` for a colon inside a field.

use vstd::prelude::*;
use crate::net::escaped::{escaped_fields, split_escaped_chars};
use crate::net::wifi::{networks, Network, WifiNetwork};
use crate::text::chars::{chars_of, string_texts};
use crate::text::number::{parse_unsigned, unsigned_value, value_within};
use crate::text::scan::same_text;
use crate::text::split::{lines_of, split_lines, texts};

verus! {

/// The number that a field holds where it is a numeral of at most 255, and
/// zero otherwise.
pub open spec fn percent_field(field: Seq<char>) -> u8 {
    match value_within(unsigned_value(field), 0, 255) {
        Some(v) => v as u8,
        None => 0,
    }
}

/// The network that a line describes. A line with fewer than four fields or
/// with an empty name describes none.
pub open spec fn nmcli_entry(line: Seq<char>) -> Option<Network> {
    let fields = escaped_fields(line, ':');
    if fields.len() < 4 || fields[0].len() == 0 {
        None
    } else {
        Some(
            Network {
                ssid: fields[0],
                signal: percent_field(fields[1]),
                secured: fields[2].len() > 0 && fields[2] != "--"@,
                connected: fields[3] == "yes"@,
            },
        )
    }
}

/// The networks that the lines describe, in the order of the lines.
pub open spec fn nmcli_entries(lines: Seq<Seq<char>>) -> Seq<Network> {
    lines.filter_map(|line: Seq<char>| nmcli_entry(line))
}

/// Reads one line of the output.
pub fn parse_nmcli_line(line: &[char]) -> (entry: Option<WifiNetwork>)
    ensures
        match entry {
            Some(network) => nmcli_entry(line@) == Some(network@),
            None => nmcli_entry(line@) is None,
        },
{
    let mut fields = split_escaped_chars(line, ':');
    if fields.len() < 4 {
        return None;
    }
    assert(string_texts(fields@)[0] == fields@[0]@);
    assert(string_texts(fields@)[1] == fields@[1]@);
    assert(string_texts(fields@)[2] == fields@[2]@);
    assert(string_texts(fields@)[3] == fields@[3]@);
    let name = chars_of(fields[0].as_str());
    if name.len() == 0 {
        return None;
    }
    let level = chars_of(fields[1].as_str());
    let signal: u8 = match parse_unsigned(level.as_slice(), 255) {
        Some(v) => v as u8,
        None => 0,
    };
    let security = chars_of(fields[2].as_str());
    let none = chars_of("--");
    let secured = security.len() > 0 && !same_text(security.as_slice(), none.as_slice());
    let active = chars_of(fields[3].as_str());
    let yes = chars_of("yes");
    let connected = same_text(active.as_slice(), yes.as_slice());
    let ssid = fields.swap_remove(0);
    Some(WifiNetwork { ssid, signal, secured, connected })
}

/// Parse nmcli -t output.
/// Format: SSID:SIGNAL:SECURITY:ACTIVE (colon-separated, with \: escaping)
pub fn parse_nmcli_output(output: &str) -> (list: Vec<WifiNetwork>)
    ensures
        networks(list@) == nmcli_entries(lines_of(output@)),
{
    let chars = chars_of(output);
    let lines = split_lines(chars.as_slice());
    let mut list: Vec<WifiNetwork> = Vec::new();
    let mut i: usize = 0;
    while i < lines.len()
        invariant
            i <= lines@.len(),
            networks(list@) == nmcli_entries(texts(lines@).take(i as int)),
        decreases lines@.len() - i,
    {
        let ghost before = networks(list@);
        proof {
            assert(texts(lines@).take(i + 1).drop_last() == texts(lines@).take(i as int));
            assert(texts(lines@).take(i + 1).last() == lines@[i as int]@);
        }
        match parse_nmcli_line(lines[i]) {
            Some(network) => {
                list.push(network);
                assert(networks(list@) == before + seq![network@]);
            },
            None => {},
        }
        i += 1;
    }
    assert(texts(lines@).take(lines@.len() as int) == texts(lines@));
    list
}

} // verus!
