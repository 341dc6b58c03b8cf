//! Sinks and sources.

use vstd::prelude::*;

verus! {

/// An output device.
#[derive(Clone)]
pub struct Sink {
    pub name: String,
    pub description: String,
    /// Volume in percent.
    pub volume: u8,
    pub muted: bool,
    pub is_default: bool,
}

/// An input device.
#[derive(Clone)]
pub struct Source {
    pub name: String,
    pub description: String,
    /// Volume in percent.
    pub volume: u8,
    pub muted: bool,
    pub is_default: bool,
}

/// The mathematical model of a [`Sink`] and of a [`Source`].
pub struct Device {
    pub name: Seq<char>,
    pub description: Seq<char>,
    pub volume: u8,
    pub muted: bool,
    pub is_default: bool,
}

impl View for Sink {
    type V = Device;

    open spec fn view(&self) -> Device {
        Device {
            name: self.name@,
            description: self.description@,
            volume: self.volume,
            muted: self.muted,
            is_default: self.is_default,
        }
    }
}

impl View for Source {
    type V = Device;

    open spec fn view(&self) -> Device {
        Device {
            name: self.name@,
            description: self.description@,
            volume: self.volume,
            muted: self.muted,
            is_default: self.is_default,
        }
    }
}

/// The models of a list of sinks, in order.
pub open spec fn sink_views(list: Seq<Sink>) -> Seq<Device> {
    Seq::new(list.len(), |i: int| list[i]@)
}

/// The models of a list of sources, in order.
pub open spec fn source_views(list: Seq<Source>) -> Seq<Device> {
    Seq::new(list.len(), |i: int| list[i]@)
}

} // verus!
