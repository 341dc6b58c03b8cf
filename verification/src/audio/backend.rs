//! The audio systems that the tools can drive.

use vstd::prelude::*;

verus! {

/// Audio backend selection.
#[derive(Debug, Clone, Copy, PartialEq, Eq, Structural)]
pub enum AudioBackend {
    PulseAudio,
    Alsa,
}

impl AudioBackend {
    /// The name under which the backend is shown.
    pub open spec fn label_text(self) -> Seq<char> {
        match self {
            AudioBackend::PulseAudio => "pipewire"@,
            AudioBackend::Alsa => "alsa"@,
        }
    }

    /// The name under which the backend is shown.
    pub fn label(&self) -> (text: &'static str)
        ensures
            text@ == self.label_text(),
    {
        match self {
            AudioBackend::PulseAudio => "pipewire",
            AudioBackend::Alsa => "alsa",
        }
    }
}

/// The backend to use, in order of preference: PulseAudio where `pactl` is
/// there, else ALSA where `amixer` is there, else none.
pub open spec fn preferred_audio_backend(has_pactl: bool, has_amixer: bool) -> Option<
    AudioBackend,
> {
    if has_pactl {
        Some(AudioBackend::PulseAudio)
    } else if has_amixer {
        Some(AudioBackend::Alsa)
    } else {
        None
    }
}

/// Detect available audio backend, in preference order, from which of the
/// two programs `pactl` and `amixer` are installed.
pub fn detect_audio_backend(has_pactl: bool, has_amixer: bool) -> (backend: Option<AudioBackend>)
    ensures
        backend == preferred_audio_backend(has_pactl, has_amixer),
{
    if has_pactl {
        Some(AudioBackend::PulseAudio)
    } else if has_amixer {
        Some(AudioBackend::Alsa)
    } else {
        None
    }
}

} // verus!
