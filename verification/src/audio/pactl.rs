//! PulseAudio through `pactl`: the devices of a report, the combined sinks
//! among the loaded modules, and the commands that make and remove them.

use vstd::prelude::*;
use vstd::slice::slice_subrange;
use crate::audio::device::{sink_views, source_views, Device, Sink, Source};
use crate::command::{invoke, Call, Invocation};
use crate::audio::sink_name::find_space;
use crate::text::chars::{chars_of, glue, push_str, str_texts, string_of, string_texts};
use crate::text::number::{
    decimal_digits, parse_unsigned, push_decimal, unsigned_value, value_within,
};
use crate::text::scan::{
    contains, contains_text, find_text, first_occurrence, has_prefix, same_text, starts_with,
    trim_end_char, trim_end_matches, trim_start_char, trim_start_matches,
};
use crate::text::space::{split_words, word_end, words_of};
use crate::text::split::{joined, lines_of, split_char, split_lines, split_on, texts};

verus! {

/// What a report holds on one device: each entry is there or not, as the
/// report has it. The volume is that of the first channel, as text.
pub struct RawDevice {
    pub name: Option<String>,
    pub description: Option<String>,
    pub mute: Option<bool>,
    pub volume: Option<String>,
}

/// The volume that an entry gives: the numeral before the percent signs at
/// its end, 100 at most; zero where the entry is missing or holds no
/// numeral of 32 bits.
pub open spec fn volume_of(entry: Option<String>) -> u8 {
    match entry {
        Some(text) => match value_within(
            unsigned_value(trim_end_char(text@, '%')),
            0,
            u32::MAX as int,
        ) {
            Some(v) => if v > 100 {
                100u8
            } else {
                v as u8
            },
            None => 0,
        },
        None => 0,
    }
}

/// The device that an entry describes; one without a name describes none.
/// A missing description is the name, a missing mute switch is off.
pub open spec fn device_from(raw: RawDevice, default_name: Seq<char>) -> Option<Device> {
    match raw.name {
        Some(name) => Some(
            Device {
                name: name@,
                description: match raw.description {
                    Some(text) => text@,
                    None => name@,
                },
                volume: volume_of(raw.volume),
                muted: match raw.mute {
                    Some(m) => m,
                    None => false,
                },
                is_default: name@ == default_name,
            },
        ),
        None => None,
    }
}

/// The sinks that the entries describe, in order.
pub open spec fn sinks_from(entries: Seq<RawDevice>, default_name: Seq<char>) -> Seq<Device> {
    entries.filter_map(|raw: RawDevice| device_from(raw, default_name))
}

/// The source that an entry describes: as for a sink, but a monitor of a
/// sink, with `.monitor` in its name, is none.
pub open spec fn source_from(raw: RawDevice, default_name: Seq<char>) -> Option<Device> {
    match raw.name {
        Some(name) => if contains_text(name@, ".monitor"@) {
            None
        } else {
            device_from(raw, default_name)
        },
        None => None,
    }
}

/// The sources that the entries describe, in order.
pub open spec fn sources_from(entries: Seq<RawDevice>, default_name: Seq<char>) -> Seq<Device> {
    entries.filter_map(|raw: RawDevice| source_from(raw, default_name))
}

/// Reads the volume of an entry.
pub fn read_volume_entry(entry: &Option<String>) -> (volume: u8)
    ensures
        volume == volume_of(*entry),
{
    match entry {
        Some(text) => {
            let chars = chars_of(text.as_str());
            let digits = trim_end_matches(chars.as_slice(), '%');
            match parse_unsigned(digits, 4294967295) {
                Some(v) => if v > 100 {
                    100
                } else {
                    v as u8
                },
                None => 0,
            }
        },
        None => 0,
    }
}

/// The parts of a device that both kinds share.
struct Parts {
    name: String,
    description: String,
    volume: u8,
    muted: bool,
    is_default: bool,
}

/// Reads one entry of the report.
fn read_device(raw: &RawDevice, default_name: &str) -> (entry: Option<Parts>)
    ensures
        match entry {
            Some(p) => device_from(*raw, default_name@) == Some(
                Device {
                    name: p.name@,
                    description: p.description@,
                    volume: p.volume,
                    muted: p.muted,
                    is_default: p.is_default,
                },
            ),
            None => device_from(*raw, default_name@) is None,
        },
{
    match &raw.name {
        Some(name) => {
            let chars = chars_of(name.as_str());
            let wanted = chars_of(default_name);
            let description = match &raw.description {
                Some(text) => text.clone(),
                None => name.clone(),
            };
            let muted = match raw.mute {
                Some(m) => m,
                None => false,
            };
            Some(
                Parts {
                    name: name.clone(),
                    description,
                    volume: read_volume_entry(&raw.volume),
                    muted,
                    is_default: same_text(chars.as_slice(), wanted.as_slice()),
                },
            )
        },
        None => None,
    }
}

/// The sinks of a report; `default_name` is the name of the default sink.
pub fn get_sinks(default_name: &str, entries: &[RawDevice]) -> (sinks: Vec<Sink>)
    ensures
        sink_views(sinks@) == sinks_from(entries@, default_name@),
{
    let mut sinks: Vec<Sink> = Vec::new();
    let mut i: usize = 0;
    assert(sink_views(sinks@) == Seq::<Device>::empty());
    while i < entries.len()
        invariant
            i <= entries@.len(),
            sink_views(sinks@) == sinks_from(entries@.take(i as int), default_name@),
        decreases entries@.len() - i,
    {
        let ghost before = sink_views(sinks@);
        proof {
            assert(entries@.take(i + 1).drop_last() == entries@.take(i as int));
            assert(entries@.take(i + 1).last() == entries@[i as int]);
        }
        match read_device(&entries[i], default_name) {
            Some(p) => {
                let sink = Sink {
                    name: p.name,
                    description: p.description,
                    volume: p.volume,
                    muted: p.muted,
                    is_default: p.is_default,
                };
                sinks.push(sink);
                assert(sink_views(sinks@) == before + seq![sink@]);
            },
            None => {},
        }
        i += 1;
    }
    assert(entries@.take(entries@.len() as int) == entries@);
    sinks
}

/// The sources of a report, monitors left out; `default_name` is the name
/// of the default source.
pub fn get_sources(default_name: &str, entries: &[RawDevice]) -> (sources: Vec<Source>)
    ensures
        source_views(sources@) == sources_from(entries@, default_name@),
{
    let monitor = chars_of(".monitor");
    let mut sources: Vec<Source> = Vec::new();
    let mut i: usize = 0;
    assert(source_views(sources@) == Seq::<Device>::empty());
    while i < entries.len()
        invariant
            i <= entries@.len(),
            monitor@ == ".monitor"@,
            source_views(sources@) == sources_from(entries@.take(i as int), default_name@),
        decreases entries@.len() - i,
    {
        let ghost before = source_views(sources@);
        proof {
            assert(entries@.take(i + 1).drop_last() == entries@.take(i as int));
            assert(entries@.take(i + 1).last() == entries@[i as int]);
        }
        let is_monitor = match &entries[i].name {
            Some(name) => {
                let chars = chars_of(name.as_str());
                contains(chars.as_slice(), monitor.as_slice())
            },
            None => false,
        };
        if !is_monitor {
            match read_device(&entries[i], default_name) {
                Some(p) => {
                    let source = Source {
                        name: p.name,
                        description: p.description,
                        volume: p.volume,
                        muted: p.muted,
                        is_default: p.is_default,
                    };
                    sources.push(source);
                    assert(source_views(sources@) == before + seq![source@]);
                },
                None => {},
            }
        }
        i += 1;
    }
    assert(entries@.take(entries@.len() as int) == entries@);
    sources
}

/// The text without the run of `c` at either end.
pub open spec fn trim_both(s: Seq<char>, c: char) -> Seq<char> {
    trim_start_char(trim_end_char(s, c), c)
}

/// The text without the double quotes at its ends, and then without the
/// single quotes at its ends.
pub open spec fn unquoted(s: Seq<char>) -> Seq<char> {
    trim_both(trim_both(s, '"'), '\'')
}

/// The first word from index `from` on that starts with `sink_name=`.
pub open spec fn first_named(words: Seq<Seq<char>>, from: int) -> Option<Seq<char>>
    decreases words.len() - from,
{
    if from >= words.len() {
        None
    } else if starts_with(words[from], "sink_name="@) {
        Some(words[from])
    } else {
        first_named(words, from + 1)
    }
}

/// The sink name in the arguments of a combine module: the value of the
/// first word that starts with `sink_name=`, without quotes; where no word
/// starts so, what follows the first `sink_name=` up to the next white
/// space, without quotes; and `combined` where the arguments hold none.
pub open spec fn module_sink_name(args: Seq<char>) -> Seq<char> {
    match first_named(words_of(args), 0) {
        Some(word) => unquoted(word.skip("sink_name="@.len() as int)),
        None => match first_occurrence(args, "sink_name="@, 0) {
            Some(at) => {
                let rest = args.skip(at + "sink_name="@.len());
                unquoted(rest.take(word_end(rest, 0)))
            },
            None => "combined"@,
        },
    }
}

/// Takes the quotes off the ends of a value.
pub fn unquote<'a>(s: &'a [char]) -> (out: &'a [char])
    ensures
        out@ == unquoted(s@),
{
    let double = trim_start_matches(trim_end_matches(s, '"'), '"');
    trim_start_matches(trim_end_matches(double, '\''), '\'')
}

/// Extract `sink_name` from the arguments of a combine module.
pub fn extract_sink_name(args: &str) -> (name: String)
    ensures
        name@ == module_sink_name(args@),
{
    let chars = chars_of(args);
    name_in_arguments(chars.as_slice())
}

/// Extracts the sink name from arguments given as characters.
pub fn name_in_arguments(args: &[char]) -> (name: String)
    ensures
        name@ == module_sink_name(args@),
{
    let key = chars_of("sink_name=");
    let n = args.len();
    let m = key.len();
    let words = split_words(args);
    let mut i: usize = 0;
    while i < words.len()
        invariant
            i <= words@.len(),
            key@ == "sink_name="@,
            m == key@.len(),
            texts(words@) == words_of(args@),
            first_named(texts(words@), 0) == first_named(texts(words@), i as int),
        decreases words@.len() - i,
    {
        let word = words[i];
        assert(texts(words@)[i as int] == word@);
        if has_prefix(word, key.as_slice()) {
            let value = slice_subrange(word, m, word.len());
            assert(value@ == word@.skip("sink_name="@.len() as int));
            return string_of(unquote(value));
        }
        i += 1;
    }
    match find_text(args, key.as_slice(), 0) {
        Some(at) => {
            let rest = slice_subrange(args, at + m, n);
            assert(rest@ == args@.skip(at + "sink_name="@.len()));
            let end = find_space(rest, 0);
            let value = slice_subrange(rest, 0, end);
            assert(value@ == rest@.take(end as int));
            string_of(unquote(value))
        },
        None => "combined".to_owned(),
    }
}

/// A combined sink among the loaded modules: the index of its module and
/// its name.
pub struct CombinedSink {
    pub index: u32,
    pub name: Seq<char>,
}

/// The combined sink that a line of the module list describes. The line
/// holds the index, the module and its arguments with tabs between them;
/// it describes a combined sink where the index is a numeral of 32 bits
/// and the module is `module-combine-sink`.
pub open spec fn combined_on(line: Seq<char>) -> Option<CombinedSink> {
    let parts = split_on(line, '\t');
    match value_within(unsigned_value(parts[0]), 0, u32::MAX as int) {
        Some(index) => if parts.len() >= 2 && parts[1] == "module-combine-sink"@ {
            Some(
                CombinedSink {
                    index: index as u32,
                    name: module_sink_name(
                        if parts.len() >= 3 {
                            parts[2]
                        } else {
                            Seq::empty()
                        },
                    ),
                },
            )
        } else {
            None
        },
        None => None,
    }
}

/// The combined sinks that the lines describe, in order.
pub open spec fn combined_in(lines: Seq<Seq<char>>) -> Seq<CombinedSink> {
    lines.filter_map(|line: Seq<char>| combined_on(line))
}

/// The models of a list of pairs of index and name, in order.
pub open spec fn combined_views(list: Seq<(u32, String)>) -> Seq<CombinedSink> {
    Seq::new(list.len(), |i: int| CombinedSink { index: list[i].0, name: list[i].1@ })
}

/// Reads one line of the module list.
pub fn read_module_line(line: &[char]) -> (entry: Option<(u32, String)>)
    ensures
        match entry {
            Some(pair) => combined_on(line@) == Some(
                CombinedSink { index: pair.0, name: pair.1@ },
            ),
            None => combined_on(line@) is None,
        },
{
    let parts = split_char(line, '\t');
    assert(texts(parts@)[0] == parts@[0]@);
    let index = match parse_unsigned(parts[0], 4294967295) {
        Some(v) => v as u32,
        None => {
            return None;
        },
    };
    if parts.len() < 2 {
        return None;
    }
    assert(texts(parts@)[1] == parts@[1]@);
    let wanted = chars_of("module-combine-sink");
    if !same_text(parts[1], wanted.as_slice()) {
        return None;
    }
    let name = if parts.len() >= 3 {
        assert(texts(parts@)[2] == parts@[2]@);
        name_in_arguments(parts[2])
    } else {
        let none: Vec<char> = Vec::new();
        name_in_arguments(none.as_slice())
    };
    Some((index, name))
}

/// Get existing combined sinks from the short list of modules.
pub fn get_combined_modules(output: &str) -> (list: Vec<(u32, String)>)
    ensures
        combined_views(list@) == combined_in(lines_of(output@)),
{
    let chars = chars_of(output);
    let lines = split_lines(chars.as_slice());
    let mut list: Vec<(u32, String)> = Vec::new();
    let mut i: usize = 0;
    assert(combined_views(list@) == Seq::<CombinedSink>::empty());
    while i < lines.len()
        invariant
            i <= lines@.len(),
            combined_views(list@) == combined_in(texts(lines@).take(i as int)),
        decreases lines@.len() - i,
    {
        let ghost before = combined_views(list@);
        proof {
            assert(texts(lines@).take(i + 1).drop_last() == texts(lines@).take(i as int));
            assert(texts(lines@).take(i + 1).last() == lines@[i as int]@);
        }
        match read_module_line(lines[i]) {
            Some(pair) => {
                let ghost entry = CombinedSink { index: pair.0, name: pair.1@ };
                list.push(pair);
                assert(combined_views(list@) == before + seq![entry]);
            },
            None => {},
        }
        i += 1;
    }
    assert(texts(lines@).take(lines@.len() as int) == texts(lines@));
    list
}

/// The command that loads a module which combines the sinks `sink_names`
/// into one sink `name`.
pub open spec fn combine_call(name: Seq<char>, sink_names: Seq<Seq<char>>) -> Call {
    Call {
        program: "pactl"@,
        args: seq![
            "load-module"@,
            "module-combine-sink"@,
            "sink_name="@ + name,
            "slaves="@ + joined(sink_names, seq![',']),
        ],
    }
}

/// Create a combined sink from multiple sinks: the command that does so,
/// or the reason why there is none.
pub fn create_combined_sink(name: &str, sink_names: &[&str]) -> (r: Result<Invocation, String>)
    ensures
        match r {
            Ok(call) => sink_names@.len() > 0 && call@ == combine_call(
                name@,
                str_texts(sink_names@),
            ),
            Err(reason) => sink_names@.len() == 0 && reason@ == "No sinks selected"@,
        },
{
    if sink_names.len() == 0 {
        return Err("No sinks selected".to_owned());
    }
    let mut slaves = chars_of("slaves=");
    let ghost prefix = slaves@;
    let mut i: usize = 0;
    assert(str_texts(sink_names@).take(0) == Seq::<Seq<char>>::empty());
    while i < sink_names.len()
        invariant
            i <= sink_names@.len(),
            prefix == "slaves="@,
            slaves@ == prefix + joined(str_texts(sink_names@).take(i as int), seq![',']),
        decreases sink_names@.len() - i,
    {
        let ghost before = str_texts(sink_names@).take(i as int);
        let ghost now = str_texts(sink_names@).take(i + 1);
        proof {
            assert(now.drop_last() == before);
            assert(now.last() == sink_names@[i as int]@);
        }
        if i > 0 {
            slaves.push(',');
            assert(slaves@ == prefix + (joined(before, seq![',']) + seq![',']));
        } else {
            assert(now[0] == sink_names@[0]@);
        }
        push_str(&mut slaves, sink_names[i]);
        i += 1;
    }
    assert(str_texts(sink_names@).take(sink_names@.len() as int) == str_texts(sink_names@));
    let mut args: Vec<String> = Vec::new();
    args.push("load-module".to_owned());
    args.push("module-combine-sink".to_owned());
    args.push(glue("sink_name=", name));
    args.push(string_of(slaves.as_slice()));
    assert(string_texts(args@) == combine_call(name@, str_texts(sink_names@)).args);
    Ok(invoke("pactl", args))
}

/// Remove a combined sink by module index: the command that does so.
pub fn remove_combined_sink(module_index: u32) -> (call: Invocation)
    ensures
        call@ == (Call {
            program: "pactl"@,
            args: seq!["unload-module"@, decimal_digits(module_index as nat)],
        }),
{
    let mut digits: Vec<char> = Vec::new();
    push_decimal(&mut digits, module_index as u64);
    let mut args: Vec<String> = Vec::new();
    args.push("unload-module".to_owned());
    args.push(string_of(digits.as_slice()));
    assert(string_texts(args@) == seq!["unload-module"@, decimal_digits(module_index as nat)]);
    invoke("pactl", args)
}

} // verus!
