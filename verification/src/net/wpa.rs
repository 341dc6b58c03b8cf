//! The scan results of `wpa_cli`: a header line, then one network to the
//! line, as `bssid`, `frequency`, `signal level`, `flags` and `ssid` with
//! tabs between them.

use vstd::prelude::*;
use vstd::slice::slice_subrange;
use crate::net::signal::{dbm_to_percent, percent_of_dbm};
use crate::net::wifi::{is_connected_to, known_name, networks, Network, WifiNetwork};
use crate::text::chars::{chars_of, string_of};
use crate::text::number::{parse_i64, signed_value, value_within};
use crate::text::scan::{contains, contains_text, has_prefix, starts_with};
use crate::text::split::{join, joined, lines_of, split_char, split_lines, split_on, texts};

verus! {

/// The signal level that a field holds where it is the numeral of a 32-bit
/// integer, and -100 dBm otherwise.
pub open spec fn dbm_field(field: Seq<char>) -> int {
    match value_within(signed_value(field), i32::MIN as int, i32::MAX as int) {
        Some(v) => v,
        None => -100,
    }
}

/// The network that a line describes. A line with fewer than five fields or
/// with an empty name describes none. The name is all that follows the
/// fourth tab.
pub open spec fn wpa_entry(line: Seq<char>, connected: Option<Seq<char>>) -> Option<Network> {
    let parts = split_on(line, '\t');
    if parts.len() < 5 {
        None
    } else {
        let ssid = joined(parts.skip(4), seq!['\t']);
        if ssid.len() == 0 {
            None
        } else {
            Some(
                Network {
                    ssid,
                    signal: percent_of_dbm(dbm_field(parts[2])) as u8,
                    secured: contains_text(parts[3], "WPA"@) || contains_text(parts[3], "WEP"@),
                    connected: connected == Some(ssid),
                },
            )
        }
    }
}

/// The networks that the lines describe, in the order of the lines.
pub open spec fn wpa_entries(lines: Seq<Seq<char>>, connected: Option<Seq<char>>) -> Seq<
    Network,
> {
    lines.filter_map(|line: Seq<char>| wpa_entry(line, connected))
}

/// The lines after the header line.
pub open spec fn after_header(lines: Seq<Seq<char>>) -> Seq<Seq<char>> {
    if lines.len() == 0 {
        lines
    } else {
        lines.skip(1)
    }
}

/// Reads the signal level of a field.
pub fn parse_dbm(field: &[char]) -> (dbm: i32)
    ensures
        dbm == dbm_field(field@),
{
    match parse_i64(field) {
        Some(v) => {
            if -2147483648 <= v && v <= 2147483647 {
                v as i32
            } else {
                -100
            }
        },
        None => -100,
    }
}

/// Reads one line of the scan results.
pub fn parse_wpa_line(line: &[char], connected: Option<&str>) -> (entry: Option<WifiNetwork>)
    ensures
        match entry {
            Some(network) => wpa_entry(line@, known_name(connected)) == Some(network@),
            None => wpa_entry(line@, known_name(connected)) is None,
        },
{
    let parts = split_char(line, '\t');
    if parts.len() < 5 {
        return None;
    }
    assert(texts(parts@)[2] == parts@[2]@);
    assert(texts(parts@)[3] == parts@[3]@);
    let tab: Vec<char> = vec!['\t'];
    assert(tab@ == seq!['\t']);
    let name_parts = slice_subrange(parts.as_slice(), 4, parts.len());
    assert(texts(name_parts@) == texts(parts@).skip(4));
    let name = join(name_parts, tab.as_slice());
    if name.len() == 0 {
        return None;
    }
    let signal = dbm_to_percent(parse_dbm(parts[2]));
    let wpa = chars_of("WPA");
    let wep = chars_of("WEP");
    let secured = contains(parts[3], wpa.as_slice()) || contains(parts[3], wep.as_slice());
    let ssid = string_of(name.as_slice());
    let connected = is_connected_to(connected, &ssid);
    Some(WifiNetwork { ssid, signal, secured, connected })
}

/// Parse `wpa_cli` `scan_results` output.
/// Format: `bssid\tfrequency\tsignal_level\tflags\tssid`
pub fn parse_wpa_scan_results(output: &str, connected: Option<&str>) -> (list: Vec<WifiNetwork>)
    ensures
        networks(list@) == wpa_entries(after_header(lines_of(output@)), known_name(connected)),
{
    let chars = chars_of(output);
    let lines = split_lines(chars.as_slice());
    let mut list: Vec<WifiNetwork> = Vec::new();
    if lines.len() == 0 {
        return list;
    }
    let ghost rest = texts(lines@).skip(1);
    let mut i: usize = 1;
    assert(rest.take(0) == Seq::<Seq<char>>::empty());
    while i < lines.len()
        invariant
            1 <= i <= lines@.len(),
            rest == texts(lines@).skip(1),
            networks(list@) == wpa_entries(rest.take(i - 1), known_name(connected)),
        decreases lines@.len() - i,
    {
        let ghost before = networks(list@);
        proof {
            assert(rest.take(i as int).drop_last() == rest.take(i - 1));
            assert(rest.take(i as int).last() == lines@[i as int]@);
        }
        match parse_wpa_line(lines[i], connected) {
            Some(network) => {
                list.push(network);
                assert(networks(list@) == before + seq![network@]);
            },
            None => {},
        }
        i += 1;
    }
    assert(rest.take(rest.len() as int) == rest);
    list
}

/// The first network name among the status lines from `from` on: what
/// follows `ssid=` on the first line that starts with it.
pub open spec fn first_ssid(lines: Seq<Seq<char>>, from: int) -> Option<Seq<char>>
    decreases lines.len() - from,
{
    if from >= lines.len() {
        None
    } else if starts_with(lines[from], "ssid="@) {
        Some(lines[from].skip("ssid="@.len() as int))
    } else {
        first_ssid(lines, from + 1)
    }
}

/// The connected network in the status that `wpa_cli` prints.
pub fn get_connected_network(output: &str) -> (name: Option<String>)
    ensures
        match name {
            Some(text) => first_ssid(lines_of(output@), 0) == Some(text@),
            None => first_ssid(lines_of(output@), 0) is None,
        },
{
    let chars = chars_of(output);
    let lines = split_lines(chars.as_slice());
    let key = chars_of("ssid=");
    let mut i: usize = 0;
    while i < lines.len()
        invariant
            i <= lines@.len(),
            key@ == "ssid="@,
            texts(lines@) == lines_of(output@),
            first_ssid(texts(lines@), 0) == first_ssid(texts(lines@), i as int),
        decreases lines@.len() - i,
    {
        let line = lines[i];
        assert(texts(lines@)[i as int] == line@);
        if has_prefix(line, key.as_slice()) {
            let rest = slice_subrange(line, key.len(), line.len());
            assert(rest@ == line@.skip("ssid="@.len() as int));
            return Some(string_of(rest));
        }
        i += 1;
    }
    None
}

} // verus!
