//! A Wi-Fi network as a scan reports it.

use vstd::prelude::*;
use crate::text::chars::chars_of;
use crate::text::scan::same_text;

verus! {

/// A Wi-Fi network discovered during scanning.
#[derive(Clone, Debug, PartialEq)]
pub struct WifiNetwork {
    pub ssid: String,
    /// Signal strength in percent.
    pub signal: u8,
    pub secured: bool,
    pub connected: bool,
}

/// The mathematical model of a [`WifiNetwork`].
pub struct Network {
    pub ssid: Seq<char>,
    pub signal: u8,
    pub secured: bool,
    pub connected: bool,
}

impl View for WifiNetwork {
    type V = Network;

    open spec fn view(&self) -> Network {
        Network {
            ssid: self.ssid@,
            signal: self.signal,
            secured: self.secured,
            connected: self.connected,
        }
    }
}

/// The models of a list of networks, in order.
pub open spec fn networks(list: Seq<WifiNetwork>) -> Seq<Network> {
    Seq::new(list.len(), |i: int| list[i]@)
}

/// The name of the network that the station is connected to, if it is
/// known.
pub open spec fn known_name(connected: Option<&str>) -> Option<Seq<char>> {
    match connected {
        Some(name) => Some(name@),
        None => None,
    }
}

/// Whether `ssid` is the network that the station is connected to.
pub fn is_connected_to(connected: Option<&str>, ssid: &String) -> (b: bool)
    ensures
        b == (known_name(connected) == Some(ssid@)),
{
    match connected {
        Some(name) => {
            let a = chars_of(name);
            let b = chars_of(ssid.as_str());
            same_text(a.as_slice(), b.as_slice())
        },
        None => false,
    }
}

} // verus!
