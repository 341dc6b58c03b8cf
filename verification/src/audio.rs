//! Audio: mixer controls, sinks and sources, and the commands that change
//! them.

pub mod alsa;
pub mod backend;
pub mod control;
pub mod device;
pub mod pactl;
pub mod sink_name;
