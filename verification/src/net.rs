//! Wi-Fi: what the command-line tools print, read as lists of networks.

pub mod backend;
pub mod connect;
pub mod escaped;
pub mod interface;
pub mod iwctl;
pub mod iwd;
pub mod nmcli;
pub mod signal;
pub mod sudo;
pub mod wifi;
pub mod wpa;
