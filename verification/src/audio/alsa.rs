//! The simple mixer controls that `amixer scontents` lists.
//!
//! Each control starts with a line `Simple mixer control 'NAME',0`. A line
//! with `Capabilities:` says whether it is a playback or a capture control,
//! and the lines after that give the volume as `[NN%]` and the switch as
//! `[on]` or `[off]`.

use vstd::prelude::*;
use vstd::slice::{slice_subrange, slice_to_vec};
use crate::audio::device::{sink_views, source_views, Device, Sink, Source};
use crate::text::chars::{chars_of, string_of};
use crate::text::number::{parse_unsigned, unsigned_value, value_within};
use crate::text::scan::{
    contains, contains_text, find_char, has_prefix, index_of, same_text, starts_with,
};
use crate::text::space::{trim, trim_chars};
use crate::text::split::{lines_of, split_lines, texts};

verus! {

/// A mixer control.
pub struct ControlInfo {
    pub name: String,
    /// Volume in percent.
    pub volume: u8,
    pub muted: bool,
}

/// The mathematical model of a [`ControlInfo`].
pub struct Control {
    pub name: Seq<char>,
    pub volume: u8,
    pub muted: bool,
}

impl View for ControlInfo {
    type V = Control;

    open spec fn view(&self) -> Control {
        Control { name: self.name@, volume: self.volume, muted: self.muted }
    }
}

/// The models of a list of controls, in order.
pub open spec fn control_views(list: Seq<ControlInfo>) -> Seq<Control> {
    Seq::new(list.len(), |i: int| list[i]@)
}

/// What is known in the middle of the listing: the controls that are
/// complete, and of the control at hand its name, its volume if a line gave
/// one, whether a line showed it switched off, and whether it is of the kind
/// asked for.
pub struct Listing {
    pub complete: Seq<Control>,
    pub name: Seq<char>,
    pub volume: Option<u8>,
    pub muted: bool,
    pub relevant: bool,
}

/// The text that starts a control.
pub open spec fn control_header() -> Seq<char> {
    "Simple mixer control '"@
}

/// The controls once the one at hand is complete: it counts where it is of
/// the kind asked for and has a name; a volume that no line gave is zero.
pub open spec fn with_current(st: Listing) -> Seq<Control> {
    if st.relevant && st.name.len() > 0 {
        st.complete.push(
            Control {
                name: st.name,
                volume: match st.volume {
                    Some(v) => v,
                    None => 0,
                },
                muted: st.muted,
            },
        )
    } else {
        st.complete
    }
}

/// Whether the capabilities on a line are those of a playback control, or
/// those of a capture control.
pub open spec fn has_capability(caps: Seq<char>, playback: bool) -> bool {
    if playback {
        contains_text(caps, "pvolume"@) || contains_text(caps, "pswitch"@)
    } else {
        contains_text(caps, "cvolume"@) || contains_text(caps, "cswitch"@)
    }
}

/// The volume on a line: the numeral of at most 255 between the first `[`
/// and the first `%` after it.
pub open spec fn volume_on(line: Seq<char>) -> Option<u8> {
    let open = index_of(line, '[', 0);
    if 0 <= open < line.len() {
        let after = line.skip(open + 1);
        let percent = index_of(after, '%', 0);
        if 0 <= percent < after.len() {
            match value_within(unsigned_value(after.take(percent)), 0, 255) {
                Some(v) => Some(v as u8),
                None => None,
            }
        } else {
            None
        }
    } else {
        None
    }
}

/// What is known after one more line.
pub open spec fn listing_step(st: Listing, line: Seq<char>, playback: bool) -> Listing {
    if starts_with(line, control_header()) {
        let rest = line.skip(control_header().len() as int);
        Listing {
            complete: with_current(st),
            name: rest.take(index_of(rest, '\'', 0)),
            volume: None,
            muted: false,
            relevant: false,
        }
    } else if contains_text(line, "Capabilities:"@) {
        Listing { relevant: has_capability(trim(line), playback), ..st }
    } else if st.relevant {
        Listing {
            volume: if st.volume is None {
                volume_on(line)
            } else {
                st.volume
            },
            muted: st.muted || contains_text(line, "[off]"@),
            ..st
        }
    } else {
        st
    }
}

/// What is known after the first `n` lines.
pub open spec fn listing_after(lines: Seq<Seq<char>>, n: int, playback: bool) -> Listing
    decreases n,
{
    if n <= 0 {
        Listing {
            complete: Seq::empty(),
            name: Seq::empty(),
            volume: None,
            muted: false,
            relevant: false,
        }
    } else {
        listing_step(listing_after(lines, n - 1, playback), lines[n - 1], playback)
    }
}

/// The playback controls of a listing, or its capture controls.
pub open spec fn alsa_controls(output: Seq<char>, playback: bool) -> Seq<Control> {
    let lines = lines_of(output);
    with_current(listing_after(lines, lines.len() as int, playback))
}

/// Reads the volume on a line.
pub fn read_volume(line: &[char]) -> (volume: Option<u8>)
    ensures
        volume == volume_on(line@),
{
    let n = line.len();
    let open = find_char(line, '[', 0);
    if open >= n {
        return None;
    }
    let after = slice_subrange(line, open + 1, n);
    assert(after@ == line@.skip(open + 1));
    let percent = find_char(after, '%', 0);
    if percent >= after.len() {
        return None;
    }
    let digits = slice_subrange(after, 0, percent);
    assert(digits@ == after@.take(percent as int));
    match parse_unsigned(digits, 255) {
        Some(v) => Some(v as u8),
        None => None,
    }
}

/// Whether the capabilities on a line are of the kind asked for.
pub fn check_capability(caps: &[char], playback: bool) -> (b: bool)
    ensures
        b == has_capability(caps@, playback),
{
    if playback {
        let volume = chars_of("pvolume");
        let switch = chars_of("pswitch");
        contains(caps, volume.as_slice()) || contains(caps, switch.as_slice())
    } else {
        let volume = chars_of("cvolume");
        let switch = chars_of("cswitch");
        contains(caps, volume.as_slice()) || contains(caps, switch.as_slice())
    }
}

/// Parse amixer scontents output into controls.
pub fn parse_alsa_controls(output: &str, playback: bool) -> (controls: Vec<ControlInfo>)
    ensures
        control_views(controls@) == alsa_controls(output@, playback),
{
    let chars = chars_of(output);
    let lines = split_lines(chars.as_slice());
    let header = chars_of("Simple mixer control '");
    let capabilities = chars_of("Capabilities:");
    let off = chars_of("[off]");
    let mut controls: Vec<ControlInfo> = Vec::new();
    let mut name: Vec<char> = Vec::new();
    let mut volume: Option<u8> = None;
    let mut muted = false;
    let mut relevant = false;
    let mut i: usize = 0;
    assert(control_views(controls@) == Seq::<Control>::empty());
    while i < lines.len()
        invariant
            i <= lines@.len(),
            header@ == control_header(),
            capabilities@ == "Capabilities:"@,
            off@ == "[off]"@,
            listing_after(texts(lines@), i as int, playback) == (Listing {
                complete: control_views(controls@),
                name: name@,
                volume,
                muted,
                relevant,
            }),
        decreases lines@.len() - i,
    {
        let line = lines[i];
        assert(texts(lines@)[i as int] == line@);
        let ghost before = control_views(controls@);
        if has_prefix(line, header.as_slice()) {
            if relevant && name.len() > 0 {
                let level = match volume {
                    Some(v) => v,
                    None => 0,
                };
                controls.push(ControlInfo { name: string_of(name.as_slice()), volume: level, muted });
                assert(control_views(controls@) == before.push(
                    Control { name: name@, volume: level, muted },
                ));
            }
            let rest = slice_subrange(line, header.len(), line.len());
            assert(rest@ == line@.skip(control_header().len() as int));
            let quote = find_char(rest, '\'', 0);
            let fresh = slice_subrange(rest, 0, quote);
            assert(fresh@ == rest@.take(quote as int));
            name = slice_to_vec(fresh);
            volume = None;
            muted = false;
            relevant = false;
        } else if contains(line, capabilities.as_slice()) {
            relevant = check_capability(trim_chars(line), playback);
        } else if relevant {
            if volume.is_none() {
                volume = read_volume(line);
            }
            if contains(line, off.as_slice()) {
                muted = true;
            }
        }
        i += 1;
    }
    let ghost before = control_views(controls@);
    if relevant && name.len() > 0 {
        let level = match volume {
            Some(v) => v,
            None => 0,
        };
        controls.push(ControlInfo { name: string_of(name.as_slice()), volume: level, muted });
        assert(control_views(controls@) == before.push(
            Control { name: name@, volume: level, muted },
        ));
    }
    controls
}

/// The device that a control is shown as; it is the default device where
/// its name is `default_name`.
pub open spec fn device_of(control: Control, default_name: Seq<char>) -> Device {
    Device {
        name: control.name,
        description: control.name,
        volume: control.volume,
        muted: control.muted,
        is_default: control.name == default_name,
    }
}

/// The devices that the controls are shown as, in order.
pub open spec fn devices_of(controls: Seq<Control>, default_name: Seq<char>) -> Seq<Device> {
    Seq::new(controls.len(), |i: int| device_of(controls[i], default_name))
}

/// The sinks of a mixer listing: its playback controls, of which `Master`
/// is the default.
pub fn get_sinks(output: &str) -> (sinks: Vec<Sink>)
    ensures
        sink_views(sinks@) == devices_of(alsa_controls(output@, true), "Master"@),
{
    let controls = parse_alsa_controls(output, true);
    let master = chars_of("Master");
    let mut sinks: Vec<Sink> = Vec::new();
    let mut i: usize = 0;
    while i < controls.len()
        invariant
            i <= controls@.len(),
            master@ == "Master"@,
            sink_views(sinks@) == devices_of(control_views(controls@), "Master"@).take(i as int),
        decreases controls@.len() - i,
    {
        let control = &controls[i];
        let name = chars_of(control.name.as_str());
        let ghost before = sink_views(sinks@);
        sinks.push(
            Sink {
                name: string_of(name.as_slice()),
                description: string_of(name.as_slice()),
                volume: control.volume,
                muted: control.muted,
                is_default: same_text(name.as_slice(), master.as_slice()),
            },
        );
        assert(sink_views(sinks@) == before.push(device_of(controls@[i as int]@, "Master"@)));
        i += 1;
    }
    assert(devices_of(control_views(controls@), "Master"@).take(controls@.len() as int)
        == devices_of(control_views(controls@), "Master"@));
    sinks
}

/// The sources of a mixer listing: its capture controls, of which `Capture`
/// is the default.
pub fn get_sources(output: &str) -> (sources: Vec<Source>)
    ensures
        source_views(sources@) == devices_of(alsa_controls(output@, false), "Capture"@),
{
    let controls = parse_alsa_controls(output, false);
    let capture = chars_of("Capture");
    let mut sources: Vec<Source> = Vec::new();
    let mut i: usize = 0;
    while i < controls.len()
        invariant
            i <= controls@.len(),
            capture@ == "Capture"@,
            source_views(sources@) == devices_of(control_views(controls@), "Capture"@).take(
                i as int,
            ),
        decreases controls@.len() - i,
    {
        let control = &controls[i];
        let name = chars_of(control.name.as_str());
        let ghost before = source_views(sources@);
        sources.push(
            Source {
                name: string_of(name.as_slice()),
                description: string_of(name.as_slice()),
                volume: control.volume,
                muted: control.muted,
                is_default: same_text(name.as_slice(), capture.as_slice()),
            },
        );
        assert(source_views(sources@) == before.push(device_of(controls@[i as int]@, "Capture"@)));
        i += 1;
    }
    assert(devices_of(control_views(controls@), "Capture"@).take(controls@.len() as int)
        == devices_of(control_views(controls@), "Capture"@));
    sources
}

} // verus!
