//! The Wi-Fi tools that the program can drive, and which of them reads a
//! scan.

use vstd::prelude::*;
use crate::command::{call3, invoke, invoke3, Call, Invocation};
use crate::net::iwd::{parse_station_networks, station_entries};
use crate::net::nmcli::{nmcli_entries, parse_nmcli_output};
use crate::net::wifi::{known_name, networks, Network, WifiNetwork};
use crate::net::wpa::{after_header, parse_wpa_scan_results, wpa_entries};
use crate::text::chars::string_texts;
use crate::text::split::lines_of;

verus! {

/// Wi-Fi backend selection.
#[derive(Debug, Clone, Copy, PartialEq, Eq, Structural)]
pub enum WifiBackend {
    Iwd,
    Wpa,
    Nmcli,
}

impl WifiBackend {
    /// The name under which the backend is shown.
    pub open spec fn label_text(self) -> Seq<char> {
        match self {
            WifiBackend::Iwd => "iwd"@,
            WifiBackend::Wpa => "wpa"@,
            WifiBackend::Nmcli => "nmcli"@,
        }
    }

    /// The name under which the backend is shown.
    pub fn label(&self) -> (text: &'static str)
        ensures
            text@ == self.label_text(),
    {
        match self {
            WifiBackend::Iwd => "iwd",
            WifiBackend::Wpa => "wpa",
            WifiBackend::Nmcli => "nmcli",
        }
    }
}

/// The backend to use, in order of preference: iwd, then wpa_supplicant,
/// then NetworkManager, each where its command-line tool is there.
pub open spec fn preferred_wifi_backend(has_iwctl: bool, has_wpa_cli: bool, has_nmcli: bool)
    -> Option<WifiBackend> {
    if has_iwctl {
        Some(WifiBackend::Iwd)
    } else if has_wpa_cli {
        Some(WifiBackend::Wpa)
    } else if has_nmcli {
        Some(WifiBackend::Nmcli)
    } else {
        None
    }
}

/// Detect available Wi-Fi backend, in preference order, from which of the
/// programs `iwctl`, `wpa_cli` and `nmcli` are installed.
pub fn detect_wifi_backend(has_iwctl: bool, has_wpa_cli: bool, has_nmcli: bool) -> (backend:
    Option<WifiBackend>)
    ensures
        backend == preferred_wifi_backend(has_iwctl, has_wpa_cli, has_nmcli),
{
    if has_iwctl {
        Some(WifiBackend::Iwd)
    } else if has_wpa_cli {
        Some(WifiBackend::Wpa)
    } else if has_nmcli {
        Some(WifiBackend::Nmcli)
    } else {
        None
    }
}

/// The networks of a scan: none where the listing command failed, and else
/// what the backend's listing describes. NetworkManager marks the connected
/// network itself; for the others `connected` names it.
pub open spec fn scanned(
    backend: WifiBackend,
    succeeded: bool,
    output: Seq<char>,
    connected: Option<Seq<char>>,
) -> Seq<Network> {
    if !succeeded {
        Seq::empty()
    } else {
        match backend {
            WifiBackend::Iwd => station_entries(
                lines_of(output),
                lines_of(output).len() as int,
                connected,
            ),
            WifiBackend::Wpa => wpa_entries(after_header(lines_of(output)), connected),
            WifiBackend::Nmcli => nmcli_entries(lines_of(output)),
        }
    }
}

/// Reads the result of a scan with the appropriate backend: `succeeded`
/// says whether the listing command ended well, `output` is what it
/// printed, and `connected` is the network that the station reports as
/// connected.
pub fn scan_wifi(backend: WifiBackend, succeeded: bool, output: &str, connected: Option<&str>)
    -> (list: Vec<WifiNetwork>)
    ensures
        networks(list@) == scanned(backend, succeeded, output@, known_name(connected)),
{
    if !succeeded {
        let list: Vec<WifiNetwork> = Vec::new();
        assert(networks(list@) == Seq::<Network>::empty());
        return list;
    }
    match backend {
        WifiBackend::Iwd => parse_station_networks(output, connected),
        WifiBackend::Wpa => parse_wpa_scan_results(output, connected),
        WifiBackend::Nmcli => parse_nmcli_output(output),
    }
}

/// A scan, step by step: the command that starts it, how long to wait for
/// it, the command that lists what it found, and the command that asks
/// which network the station is connected to, where the listing does not
/// say.
pub struct ScanPlan {
    pub trigger: Invocation,
    pub wait_ms: u64,
    pub list: Invocation,
    pub status: Option<Invocation>,
}

/// The mathematical model of a [`ScanPlan`].
pub struct Scan {
    pub trigger: Call,
    pub wait_ms: u64,
    pub list: Call,
    pub status: Option<Call>,
}

impl View for ScanPlan {
    type V = Scan;

    open spec fn view(&self) -> Scan {
        Scan {
            trigger: self.trigger@,
            wait_ms: self.wait_ms,
            list: self.list@,
            status: match self.status {
                Some(call) => Some(call@),
                None => None,
            },
        }
    }
}

/// The steps of a scan on `interface` with each backend.
pub open spec fn scan_steps(backend: WifiBackend, interface: Seq<char>) -> Scan {
    match backend {
        WifiBackend::Iwd => Scan {
            trigger: call3("iwctl"@, "station"@, interface, "scan"@),
            wait_ms: 500,
            list: call3("iwctl"@, "station"@, interface, "get-networks"@),
            status: Some(call3("iwctl"@, "station"@, interface, "show"@)),
        },
        WifiBackend::Wpa => Scan {
            trigger: call3("wpa_cli"@, "-i"@, interface, "scan"@),
            wait_ms: 2000,
            list: call3("wpa_cli"@, "-i"@, interface, "scan_results"@),
            status: Some(call3("wpa_cli"@, "-i"@, interface, "status"@)),
        },
        WifiBackend::Nmcli => Scan {
            trigger: Call {
                program: "nmcli"@,
                args: seq!["dev"@, "wifi"@, "rescan"@, "ifname"@, interface],
            },
            wait_ms: 1000,
            list: Call {
                program: "nmcli"@,
                args: seq![
                    "-t"@,
                    "-f"@,
                    "SSID,SIGNAL,SECURITY,ACTIVE"@,
                    "dev"@,
                    "wifi"@,
                    "list"@,
                    "ifname"@,
                    interface,
                ],
            },
            status: None,
        },
    }
}

/// Plans a scan on `interface`.
pub fn scan_plan(backend: WifiBackend, interface: &str) -> (plan: ScanPlan)
    ensures
        plan@ == scan_steps(backend, interface@),
{
    match backend {
        WifiBackend::Iwd => ScanPlan {
            trigger: invoke3("iwctl", "station", interface, "scan"),
            wait_ms: 500,
            list: invoke3("iwctl", "station", interface, "get-networks"),
            status: Some(invoke3("iwctl", "station", interface, "show")),
        },
        WifiBackend::Wpa => ScanPlan {
            trigger: invoke3("wpa_cli", "-i", interface, "scan"),
            wait_ms: 2000,
            list: invoke3("wpa_cli", "-i", interface, "scan_results"),
            status: Some(invoke3("wpa_cli", "-i", interface, "status")),
        },
        WifiBackend::Nmcli => {
            let mut rescan: Vec<String> = Vec::new();
            rescan.push("dev".to_owned());
            rescan.push("wifi".to_owned());
            rescan.push("rescan".to_owned());
            rescan.push("ifname".to_owned());
            rescan.push(interface.to_owned());
            assert(string_texts(rescan@) == seq![
                "dev"@,
                "wifi"@,
                "rescan"@,
                "ifname"@,
                interface@,
            ]);
            let mut list: Vec<String> = Vec::new();
            list.push("-t".to_owned());
            list.push("-f".to_owned());
            list.push("SSID,SIGNAL,SECURITY,ACTIVE".to_owned());
            list.push("dev".to_owned());
            list.push("wifi".to_owned());
            list.push("list".to_owned());
            list.push("ifname".to_owned());
            list.push(interface.to_owned());
            assert(string_texts(list@) == seq![
                "-t"@,
                "-f"@,
                "SSID,SIGNAL,SECURITY,ACTIVE"@,
                "dev"@,
                "wifi"@,
                "list"@,
                "ifname"@,
                interface@,
            ]);
            ScanPlan {
                trigger: invoke("nmcli", rescan),
                wait_ms: 1000,
                list: invoke("nmcli", list),
                status: None,
            }
        },
    }
}

} // verus!
