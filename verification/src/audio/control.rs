//! The commands that change the volume, the mute switch and the default
//! device.

use vstd::prelude::*;
use crate::audio::backend::AudioBackend;
use crate::command::{call2, call3, invoke2, invoke3, Call, Invocation};
use crate::text::chars::{chars_of, glue, string_of};
use crate::text::space::{trim, trim_chars};

verus! {

/// The step by which the volume changes: up where `delta` is positive, down
/// otherwise. PulseAudio writes the sign first, ALSA last.
pub open spec fn volume_step(backend: AudioBackend, delta: int) -> Seq<char> {
    match backend {
        AudioBackend::PulseAudio => if delta > 0 {
            "+5%"@
        } else {
            "-5%"@
        },
        AudioBackend::Alsa => if delta > 0 {
            "5%+"@
        } else {
            "5%-"@
        },
    }
}

/// The step by which the volume changes.
pub fn volume_step_for(backend: AudioBackend, delta: i8) -> (step: &'static str)
    ensures
        step@ == volume_step(backend, delta as int),
{
    match backend {
        AudioBackend::PulseAudio => if delta > 0 {
            "+5%"
        } else {
            "-5%"
        },
        AudioBackend::Alsa => if delta > 0 {
            "5%+"
        } else {
            "5%-"
        },
    }
}

/// The command that changes the volume of the device `name` by one step.
/// `verb` is what PulseAudio calls the change for this kind of device.
pub open spec fn volume_call(backend: AudioBackend, verb: Seq<char>, name: Seq<char>, delta: int)
    -> Call {
    match backend {
        AudioBackend::PulseAudio => call3("pactl"@, verb, name, volume_step(backend, delta)),
        AudioBackend::Alsa => call3("amixer"@, "sset"@, name, volume_step(backend, delta)),
    }
}

/// The command that flips the mute switch of the device `name`.
pub open spec fn mute_call(backend: AudioBackend, verb: Seq<char>, name: Seq<char>) -> Call {
    match backend {
        AudioBackend::PulseAudio => call3("pactl"@, verb, name, "toggle"@),
        AudioBackend::Alsa => call3("amixer"@, "sset"@, name, "toggle"@),
    }
}

/// The command that raises the volume of a sink by one step where `delta`
/// is positive, and lowers it by one step otherwise.
pub fn adjust_sink_volume(backend: AudioBackend, name: &str, delta: i8) -> (call: Invocation)
    ensures
        call@ == volume_call(backend, "set-sink-volume"@, name@, delta as int),
{
    let step = volume_step_for(backend, delta);
    match backend {
        AudioBackend::PulseAudio => invoke3("pactl", "set-sink-volume", name, step),
        AudioBackend::Alsa => invoke3("amixer", "sset", name, step),
    }
}

/// The command that raises the volume of a source by one step where `delta`
/// is positive, and lowers it by one step otherwise.
pub fn adjust_source_volume(backend: AudioBackend, name: &str, delta: i8) -> (call: Invocation)
    ensures
        call@ == volume_call(backend, "set-source-volume"@, name@, delta as int),
{
    let step = volume_step_for(backend, delta);
    match backend {
        AudioBackend::PulseAudio => invoke3("pactl", "set-source-volume", name, step),
        AudioBackend::Alsa => invoke3("amixer", "sset", name, step),
    }
}

/// The command that flips the mute switch of a sink.
pub fn toggle_sink_mute(backend: AudioBackend, name: &str) -> (call: Invocation)
    ensures
        call@ == mute_call(backend, "set-sink-mute"@, name@),
{
    match backend {
        AudioBackend::PulseAudio => invoke3("pactl", "set-sink-mute", name, "toggle"),
        AudioBackend::Alsa => invoke3("amixer", "sset", name, "toggle"),
    }
}

/// The command that flips the mute switch of a source.
pub fn toggle_source_mute(backend: AudioBackend, name: &str) -> (call: Invocation)
    ensures
        call@ == mute_call(backend, "set-source-mute"@, name@),
{
    match backend {
        AudioBackend::PulseAudio => invoke3("pactl", "set-source-mute", name, "toggle"),
        AudioBackend::Alsa => invoke3("amixer", "sset", name, "toggle"),
    }
}

/// The command that makes the sink `name` the default. ALSA has no default
/// sink to set.
pub fn set_default_sink(backend: AudioBackend, name: &str) -> (r: Result<Invocation, String>)
    ensures
        match r {
            Ok(call) => backend == AudioBackend::PulseAudio && call@ == call2(
                "pactl"@,
                "set-default-sink"@,
                name@,
            ),
            Err(reason) => backend == AudioBackend::Alsa && reason@
                == "ALSA does not support setting default sink"@,
        },
{
    match backend {
        AudioBackend::PulseAudio => Ok(invoke2("pactl", "set-default-sink", name)),
        AudioBackend::Alsa => Err("ALSA does not support setting default sink".to_owned()),
    }
}

/// The command that makes the source `name` the default. ALSA has no
/// default source to set.
pub fn set_default_source(backend: AudioBackend, name: &str) -> (r: Result<Invocation, String>)
    ensures
        match r {
            Ok(call) => backend == AudioBackend::PulseAudio && call@ == call2(
                "pactl"@,
                "set-default-source"@,
                name@,
            ),
            Err(reason) => backend == AudioBackend::Alsa && reason@
                == "ALSA does not support setting default source"@,
        },
{
    match backend {
        AudioBackend::PulseAudio => Ok(invoke2("pactl", "set-default-source", name)),
        AudioBackend::Alsa => Err("ALSA does not support setting default source".to_owned()),
    }
}

/// What to report when a command has failed: what it wrote to its error
/// stream, without the white space around it, and `fallback` followed by
/// `name` where it wrote nothing.
pub open spec fn failure_text(stderr: Seq<char>, fallback: Seq<char>, name: Seq<char>) -> Seq<
    char,
> {
    if stderr.len() == 0 {
        fallback + name
    } else {
        trim(stderr)
    }
}

/// What to report when setting the default device has failed.
pub fn failure_report(stderr: &str, fallback: &str, name: &str) -> (report: String)
    ensures
        report@ == failure_text(stderr@, fallback@, name@),
{
    let text = chars_of(stderr);
    if text.len() == 0 {
        glue(fallback, name)
    } else {
        string_of(trim_chars(text.as_slice()))
    }
}

} // verus!
