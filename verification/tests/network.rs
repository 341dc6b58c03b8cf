use tuitools::command::Invocation;
use tuitools::net::backend::{detect_wifi_backend, scan_plan, scan_wifi, WifiBackend};
use tuitools::net::connect::{connect_result, connect_wifi, wpa_connect_plan, ConnectStep};
use tuitools::net::interface::{
    format_address, get_interfaces, toggle_command, toggle_interface, RawInterface,
};
use tuitools::net::iwd;
use tuitools::net::signal::{dbm_to_percent, marks_to_percent};
use tuitools::net::sudo::{sudo_command, sudo_failure, SudoMode};
use tuitools::net::wifi::WifiNetwork;
use tuitools::net::wpa;

fn call(program: &str, args: &[&str]) -> Invocation {
    Invocation {
        program: program.to_string(),
        args: args.iter().map(|a| a.to_string()).collect(),
    }
}

fn network(ssid: &str, signal: u8, secured: bool, connected: bool) -> WifiNetwork {
    WifiNetwork { ssid: ssid.to_string(), signal, secured, connected }
}

const STATION_TABLE: &str = "\
                               Available networks\n\
--------------------------------------------------------------------------------\n\
      Network name                      Security            Signal\n\
--------------------------------------------------------------------------------\n\
  >   Home Net                          psk                 ****\n\
      Cafe                              open                **\n\
      Far Away                          8021x               *\n\
\n";

#[test]
fn backends_in_order_of_preference() {
    assert_eq!(detect_wifi_backend(true, true, true), Some(WifiBackend::Iwd));
    assert_eq!(detect_wifi_backend(false, true, true), Some(WifiBackend::Wpa));
    assert_eq!(detect_wifi_backend(false, false, true), Some(WifiBackend::Nmcli));
    assert_eq!(detect_wifi_backend(false, false, false), None);
    assert_eq!(detect_wifi_backend(true, false, false), Some(WifiBackend::Iwd));
    assert_eq!(WifiBackend::Iwd.label(), "iwd");
    assert_eq!(WifiBackend::Wpa.label(), "wpa");
    assert_eq!(WifiBackend::Nmcli.label(), "nmcli");
}

#[test]
fn station_table_is_read() {
    let list = iwd::parse_station_networks(STATION_TABLE, None);
    assert_eq!(
        list,
        vec![
            network("Home Net", 100, true, true),
            network("Cafe", 50, false, false),
            network("Far Away", 25, true, false),
        ]
    );
}

#[test]
fn station_table_needs_two_rules() {
    let one_rule = "Network name  Security  Signal\n----\nHome psk ****\n";
    assert_eq!(iwd::parse_station_networks(one_rule, None), Vec::new());
    let two_rules = "----\nNetwork name  Security  Signal\n----\nHome psk ****\n";
    assert_eq!(
        iwd::parse_station_networks(two_rules, Some("Home")),
        vec![network("Home", 100, true, true)]
    );
    let header_again = "----\n----\nNetwork name  Security\nOnlyOne\nA b\n";
    assert_eq!(
        iwd::parse_station_networks(header_again, None),
        vec![network("A", 0, true, false)]
    );
}

#[test]
fn station_signal_marks() {
    let table = "----\n----\nA psk *****\nB psk ***** *****\nC psk ***********\nD psk\n";
    let list = iwd::parse_station_networks(table, None);
    assert_eq!(list.len(), 4);
    assert_eq!(list[0].signal, 125);
    assert_eq!(list[1].signal, 250);
    assert_eq!(list[2].signal, 255);
    assert_eq!(list[3].signal, 0);
}

#[test]
fn connected_network_of_the_station() {
    let show = "Station: wlan0\n  State  connected\n    Connected network   Home Net   \n";
    assert_eq!(iwd::get_connected_network(show), Some("Home Net".to_string()));
    assert_eq!(iwd::get_connected_network("State  disconnected\n"), None);
    assert_eq!(iwd::get_connected_network("Connected network"), Some(String::new()));
    let status = "bssid=aa:bb\nssid=Home Net\nid=0\nssid=Other\n";
    assert_eq!(wpa::get_connected_network(status), Some("Home Net".to_string()));
    assert_eq!(wpa::get_connected_network("bssid=aa:bb\n"), None);
}

#[test]
fn scans_are_read_by_the_backend() {
    assert_eq!(
        scan_wifi(WifiBackend::Iwd, true, STATION_TABLE, Some("Cafe")),
        vec![
            network("Home Net", 100, true, true),
            network("Cafe", 50, false, true),
            network("Far Away", 25, true, false),
        ]
    );
    assert_eq!(scan_wifi(WifiBackend::Iwd, false, STATION_TABLE, None), Vec::new());
    assert_eq!(
        scan_wifi(WifiBackend::Wpa, true, "header\naa\t2437\t-65\t[WPA2]\tHome", Some("Home")),
        vec![network("Home", 50, true, true)]
    );
    assert_eq!(
        scan_wifi(WifiBackend::Nmcli, true, "Home:61:WPA2:yes\n", Some("Other")),
        vec![network("Home", 61, true, true)]
    );
    assert_eq!(scan_wifi(WifiBackend::Nmcli, false, "Home:61:WPA2:yes\n", None), Vec::new());
}

#[test]
fn scan_plans() {
    let iwd = scan_plan(WifiBackend::Iwd, "wlan0");
    assert_eq!(iwd.trigger, call("iwctl", &["station", "wlan0", "scan"]));
    assert_eq!(iwd.wait_ms, 500);
    assert_eq!(iwd.list, call("iwctl", &["station", "wlan0", "get-networks"]));
    assert_eq!(iwd.status, Some(call("iwctl", &["station", "wlan0", "show"])));
    let wpa = scan_plan(WifiBackend::Wpa, "wlan0");
    assert_eq!(wpa.trigger, call("wpa_cli", &["-i", "wlan0", "scan"]));
    assert_eq!(wpa.wait_ms, 2000);
    assert_eq!(wpa.list, call("wpa_cli", &["-i", "wlan0", "scan_results"]));
    assert_eq!(wpa.status, Some(call("wpa_cli", &["-i", "wlan0", "status"])));
    let nmcli = scan_plan(WifiBackend::Nmcli, "wlan0");
    assert_eq!(nmcli.trigger, call("nmcli", &["dev", "wifi", "rescan", "ifname", "wlan0"]));
    assert_eq!(nmcli.wait_ms, 1000);
    assert_eq!(
        nmcli.list,
        call(
            "nmcli",
            &["-t", "-f", "SSID,SIGNAL,SECURITY,ACTIVE", "dev", "wifi", "list", "ifname", "wlan0"]
        )
    );
    assert_eq!(nmcli.status, None);
}

#[test]
fn first_step_of_a_connection() {
    assert_eq!(
        connect_wifi(WifiBackend::Iwd, "wlan0", "Home", Some("")),
        ConnectStep::Report("'Home' requires a password".to_string())
    );
    assert_eq!(
        connect_wifi(WifiBackend::Iwd, "wlan0", "Home", Some("secret")),
        ConnectStep::Run(call(
            "iwctl",
            &["--passphrase", "secret", "station", "wlan0", "connect", "Home"]
        ))
    );
    assert_eq!(
        connect_wifi(WifiBackend::Iwd, "wlan0", "Home", None),
        ConnectStep::Run(call("iwctl", &["station", "wlan0", "connect", "Home"]))
    );
    assert_eq!(
        connect_wifi(WifiBackend::Nmcli, "wlan0", "Home", Some("")),
        ConnectStep::Report("'Home' requires a password".to_string())
    );
    assert_eq!(
        connect_wifi(WifiBackend::Nmcli, "wlan0", "Home", Some("secret")),
        ConnectStep::Run(call(
            "nmcli",
            &["dev", "wifi", "connect", "Home", "ifname", "wlan0", "password", "secret"]
        ))
    );
    assert_eq!(
        connect_wifi(WifiBackend::Nmcli, "wlan0", "Home", None),
        ConnectStep::Run(call("nmcli", &["dev", "wifi", "connect", "Home", "ifname", "wlan0"]))
    );
    assert_eq!(
        connect_wifi(WifiBackend::Wpa, "wlan0", "Home", Some("")),
        ConnectStep::Run(call("wpa_cli", &["-i", "wlan0", "add_network"]))
    );
}

#[test]
fn answers_after_a_connection() {
    assert_eq!(connect_result(WifiBackend::Iwd, "Home", true, "noise"), "Connecting to Home");
    assert_eq!(
        connect_result(WifiBackend::Iwd, "Home", false, "Invalid passphrase\n"),
        "'Home' requires a password"
    );
    assert_eq!(
        connect_result(WifiBackend::Iwd, "Home", false, "Passphrase needed"),
        "'Home' requires a password"
    );
    assert_eq!(connect_result(WifiBackend::Iwd, "Home", false, ""), "Connecting to Home");
    assert_eq!(
        connect_result(WifiBackend::Iwd, "Home", false, "  No such device \n"),
        "Failed: No such device"
    );
    assert_eq!(
        connect_result(WifiBackend::Nmcli, "Home", false, "Error: Secrets were required."),
        "'Home' requires a password"
    );
    assert_eq!(
        connect_result(WifiBackend::Nmcli, "Home", false, "No suitable device"),
        "'Home' requires a password"
    );
    assert_eq!(
        connect_result(WifiBackend::Nmcli, "Home", false, "passphrase"),
        "Failed: passphrase"
    );
    assert_eq!(connect_result(WifiBackend::Wpa, "Home", false, "FAIL"), "Connecting to Home");
}

#[test]
fn plans_for_wpa_supplicant() {
    let with_key = wpa_connect_plan("wlan0", "Home", Some("secret"), "3\n");
    assert_eq!(
        with_key.calls,
        vec![
            call("wpa_cli", &["-i", "wlan0", "set_network", "3", "ssid", "\"Home\""]),
            call("wpa_cli", &["-i", "wlan0", "set_network", "3", "psk", "\"secret\""]),
            call("wpa_cli", &["-i", "wlan0", "select_network", "3"]),
        ]
    );
    assert_eq!(with_key.report, "Connecting to Home");
    let open = wpa_connect_plan("wlan0", "Home", None, " 0 ");
    assert_eq!(
        open.calls,
        vec![
            call("wpa_cli", &["-i", "wlan0", "set_network", "0", "ssid", "\"Home\""]),
            call("wpa_cli", &["-i", "wlan0", "set_network", "0", "key_mgmt", "NONE"]),
            call("wpa_cli", &["-i", "wlan0", "select_network", "0"]),
        ]
    );
    assert_eq!(open.report, "Connecting to Home");
    let empty = wpa_connect_plan("wlan0", "Home", Some(""), "1");
    assert_eq!(
        empty.calls,
        vec![call("wpa_cli", &["-i", "wlan0", "set_network", "1", "ssid", "\"Home\""])]
    );
    assert_eq!(empty.report, "'Home' requires a password");
}

#[test]
fn interfaces_of_a_report() {
    let entries = vec![
        RawInterface {
            name: Some("lo".to_string()),
            itype: Some("loopback".to_string()),
            oper_state: Some("carrier".to_string()),
            addresses: vec![Some(vec![Some(127), Some(0), Some(0), Some(1)])],
        },
        RawInterface {
            name: Some("eth0".to_string()),
            itype: Some("ether".to_string()),
            oper_state: Some("routable".to_string()),
            addresses: vec![
                None,
                Some(vec![Some(1), Some(2), Some(3)]),
                Some(vec![Some(1), None, Some(3), Some(4)]),
                Some(vec![Some(192), Some(168), Some(0), Some(17)]),
                Some(vec![Some(10), Some(0), Some(0), Some(1)]),
            ],
        },
        RawInterface { name: None, itype: None, oper_state: None, addresses: vec![] },
        RawInterface {
            name: Some("wlan0".to_string()),
            itype: None,
            oper_state: None,
            addresses: vec![],
        },
    ];
    let list = get_interfaces(&entries);
    assert_eq!(list.len(), 2);
    assert_eq!(list[0].name, "eth0");
    assert_eq!(list[0].itype, "ether");
    assert_eq!(list[0].oper_state, "routable");
    assert_eq!(list[0].address, Some("192.168.0.17".to_string()));
    assert_eq!(list[1].name, "wlan0");
    assert_eq!(list[1].itype, "unknown");
    assert_eq!(list[1].oper_state, "off");
    assert_eq!(list[1].address, None);
}

#[test]
fn addresses_in_dotted_notation() {
    assert_eq!(
        format_address(&Some(vec![Some(0), Some(255), Some(1000), Some(7)])),
        Some("0.255.1000.7".to_string())
    );
    assert_eq!(format_address(&Some(vec![Some(0), Some(1), Some(2), Some(3), Some(4)])), None);
    assert_eq!(format_address(&Some(vec![])), None);
    assert_eq!(format_address(&None), None);
}

#[test]
fn bringing_an_interface_up_or_down() {
    assert_eq!(toggle_command("eth0", true), call("networkctl", &["up", "eth0"]));
    assert_eq!(toggle_command("eth0", false), call("networkctl", &["down", "eth0"]));
    assert_eq!(toggle_interface("eth0", true, Ok("ignored".to_string())), Ok("eth0 up".to_string()));
    assert_eq!(toggle_interface("eth0", false, Ok(String::new())), Ok("eth0 down".to_string()));
    assert_eq!(
        toggle_interface("eth0", true, Err("Sudo password required".to_string())),
        Err("Sudo password required".to_string())
    );
    assert_eq!(
        toggle_interface("eth0", true, Err("Incorrect password".to_string())),
        Ok("Incorrect password".to_string())
    );
}

#[test]
fn commands_through_sudo() {
    assert_eq!(
        sudo_command("sudo", SudoMode::Cached, "networkctl", &["up", "eth0"]),
        call("sudo", &["--non-interactive", "networkctl", "up", "eth0"])
    );
    assert_eq!(
        sudo_command("/run/wrappers/bin/sudo", SudoMode::FromInput, "true", &[]),
        call("/run/wrappers/bin/sudo", &["-S", "true"])
    );
    assert_eq!(sudo_failure("sudo: 1 incorrect password attempt"), "Incorrect password");
    assert_eq!(sudo_failure("Sorry, try again."), "Incorrect password");
    assert_eq!(sudo_failure("  interface not found\n"), "interface not found");
    assert_eq!(sudo_failure(""), "");
}

#[test]
fn signal_formulas() {
    assert_eq!(dbm_to_percent(-65), 50);
    assert_eq!(dbm_to_percent(-45), 78);
    assert_eq!(dbm_to_percent(-31), 98);
    assert_eq!(dbm_to_percent(-99), 1);
    assert_eq!(dbm_to_percent(0), 100);
    assert_eq!(dbm_to_percent(i32::MIN), 0);
    assert_eq!(dbm_to_percent(i32::MAX), 100);
    assert_eq!(marks_to_percent(0), 0);
    assert_eq!(marks_to_percent(3), 75);
    assert_eq!(marks_to_percent(4), 100);
    assert_eq!(marks_to_percent(usize::MAX), 100);
}
