//! Connecting to a network: which command to run, and what to tell the user
//! once it has run.

use vstd::prelude::*;
use crate::command::{invoke, Call, Invocation};
use crate::net::backend::WifiBackend;
use crate::text::chars::{chars_of, glue, push_str, string_of};
use crate::text::scan::{contains, contains_text};
use crate::text::space::{trim, trim_chars};
use crate::text::split::push_all;

verus! {

/// What to do next when the user asks for a connection.
#[derive(Debug, PartialEq, Eq)]
pub enum ConnectStep {
    /// Nothing is run; this is the answer.
    Report(String),
    /// Run this command.
    Run(Invocation),
}

/// The mathematical model of a [`ConnectStep`].
pub enum Step {
    Report(Seq<char>),
    Run(Call),
}

impl View for ConnectStep {
    type V = Step;

    open spec fn view(&self) -> Step {
        match self {
            ConnectStep::Report(text) => Step::Report(text@),
            ConnectStep::Run(call) => Step::Run(call@),
        }
    }
}

/// The answer where a password is needed.
pub open spec fn needs_password_text(ssid: Seq<char>) -> Seq<char> {
    "'"@ + ssid + "' requires a password"@
}

/// The answer where the connection is under way.
pub open spec fn connecting_text(ssid: Seq<char>) -> Seq<char> {
    "Connecting to "@ + ssid
}

/// The answer where the command failed for a reason of its own.
pub open spec fn failed_text(stderr: Seq<char>) -> Seq<char> {
    "Failed: "@ + trim(stderr)
}

/// The password as text, where one is given.
pub open spec fn given(password: Option<&str>) -> Option<Seq<char>> {
    match password {
        Some(text) => Some(text@),
        None => None,
    }
}

/// The first step of a connection. An empty password is answered at once
/// by iwd and NetworkManager; wpa_supplicant first wants a network added.
pub open spec fn first_step(
    backend: WifiBackend,
    interface: Seq<char>,
    ssid: Seq<char>,
    password: Option<Seq<char>>,
) -> Step {
    match backend {
        WifiBackend::Iwd => match password {
            Some(psk) => if psk.len() == 0 {
                Step::Report(needs_password_text(ssid))
            } else {
                Step::Run(
                    Call {
                        program: "iwctl"@,
                        args: seq![
                            "--passphrase"@,
                            psk,
                            "station"@,
                            interface,
                            "connect"@,
                            ssid,
                        ],
                    },
                )
            },
            None => Step::Run(
                Call { program: "iwctl"@, args: seq!["station"@, interface, "connect"@, ssid] },
            ),
        },
        WifiBackend::Wpa => Step::Run(
            Call { program: "wpa_cli"@, args: seq!["-i"@, interface, "add_network"@] },
        ),
        WifiBackend::Nmcli => match password {
            Some(psk) => if psk.len() == 0 {
                Step::Report(needs_password_text(ssid))
            } else {
                Step::Run(
                    Call {
                        program: "nmcli"@,
                        args: seq![
                            "dev"@,
                            "wifi"@,
                            "connect"@,
                            ssid,
                            "ifname"@,
                            interface,
                            "password"@,
                            psk,
                        ],
                    },
                )
            },
            None => Step::Run(
                Call {
                    program: "nmcli"@,
                    args: seq!["dev"@, "wifi"@, "connect"@, ssid, "ifname"@, interface],
                },
            ),
        },
    }
}

/// The text of a message made of three parts.
pub fn message3(a: &str, b: &str, c: &str) -> (out: String)
    ensures
        out@ == a@ + b@ + c@,
{
    let mut chars: Vec<char> = Vec::new();
    push_str(&mut chars, a);
    push_str(&mut chars, b);
    push_str(&mut chars, c);
    string_of(chars.as_slice())
}

/// Collects arguments into a call of `program`.
fn call_with(program: &str, words: &[&str]) -> (call: Invocation)
    ensures
        call@.program == program@,
        call@.args.len() == words@.len(),
        forall|i: int| 0 <= i < words@.len() ==> call@.args[i] == words@[i]@,
{
    let mut args: Vec<String> = Vec::new();
    let mut i: usize = 0;
    while i < words.len()
        invariant
            i <= words@.len(),
            args@.len() == i,
            forall|j: int| 0 <= j < i ==> args@[j]@ == words@[j]@,
        decreases words@.len() - i,
    {
        args.push(words[i].to_owned());
        i += 1;
    }
    invoke(program, args)
}

/// Connect to a Wi-Fi network using the appropriate backend: the first
/// step.
pub fn connect_wifi(backend: WifiBackend, interface: &str, ssid: &str, password: Option<&str>)
    -> (step: ConnectStep)
    ensures
        step@ == first_step(backend, interface@, ssid@, given(password)),
{
    match backend {
        WifiBackend::Iwd => match password {
            Some(psk) => {
                if chars_of(psk).len() == 0 {
                    ConnectStep::Report(message3("'", ssid, "' requires a password"))
                } else {
                    let call = call_with(
                        "iwctl",
                        &["--passphrase", psk, "station", interface, "connect", ssid],
                    );
                    assert(call@.args =~= seq![
                        "--passphrase"@,
                        psk@,
                        "station"@,
                        interface@,
                        "connect"@,
                        ssid@,
                    ]);
                    ConnectStep::Run(call)
                }
            },
            None => {
                let call = call_with("iwctl", &["station", interface, "connect", ssid]);
                assert(call@.args =~= seq!["station"@, interface@, "connect"@, ssid@]);
                ConnectStep::Run(call)
            },
        },
        WifiBackend::Wpa => {
            let call = call_with("wpa_cli", &["-i", interface, "add_network"]);
            assert(call@.args =~= seq!["-i"@, interface@, "add_network"@]);
            ConnectStep::Run(call)
        },
        WifiBackend::Nmcli => match password {
            Some(psk) => {
                if chars_of(psk).len() == 0 {
                    ConnectStep::Report(message3("'", ssid, "' requires a password"))
                } else {
                    let call = call_with(
                        "nmcli",
                        &["dev", "wifi", "connect", ssid, "ifname", interface, "password", psk],
                    );
                    assert(call@.args =~= seq![
                        "dev"@,
                        "wifi"@,
                        "connect"@,
                        ssid@,
                        "ifname"@,
                        interface@,
                        "password"@,
                        psk@,
                    ]);
                    ConnectStep::Run(call)
                }
            },
            None => {
                let call = call_with(
                    "nmcli",
                    &["dev", "wifi", "connect", ssid, "ifname", interface],
                );
                assert(call@.args =~= seq![
                    "dev"@,
                    "wifi"@,
                    "connect"@,
                    ssid@,
                    "ifname"@,
                    interface@,
                ]);
                ConnectStep::Run(call)
            },
        },
    }
}

/// Whether what the command wrote to its error stream says that a password
/// is missing.
pub open spec fn asks_for_password(backend: WifiBackend, stderr: Seq<char>) -> bool {
    match backend {
        WifiBackend::Iwd => contains_text(stderr, "passphrase"@) || contains_text(
            stderr,
            "Passphrase"@,
        ),
        WifiBackend::Nmcli => contains_text(stderr, "Secrets were required"@) || contains_text(
            stderr,
            "No suitable"@,
        ),
        WifiBackend::Wpa => false,
    }
}

/// What to tell the user once the connect command has run. wpa_supplicant
/// connects in the background, so its answer is always that the connection
/// is under way. For the others a failure is told apart by what the command
/// wrote to its error stream: a missing password, nothing at all, or a
/// reason of its own.
pub open spec fn outcome_text(
    backend: WifiBackend,
    ssid: Seq<char>,
    succeeded: bool,
    stderr: Seq<char>,
) -> Seq<char> {
    if backend == WifiBackend::Wpa || succeeded {
        connecting_text(ssid)
    } else if asks_for_password(backend, stderr) {
        needs_password_text(ssid)
    } else if stderr.len() == 0 {
        connecting_text(ssid)
    } else {
        failed_text(stderr)
    }
}

/// What to tell the user once the connect command has run.
pub fn connect_result(backend: WifiBackend, ssid: &str, succeeded: bool, stderr: &str) -> (text:
    String)
    ensures
        text@ == outcome_text(backend, ssid@, succeeded, stderr@),
{
    let errors = chars_of(stderr);
    let asks = match backend {
        WifiBackend::Iwd => {
            let lower = chars_of("passphrase");
            let upper = chars_of("Passphrase");
            contains(errors.as_slice(), lower.as_slice()) || contains(
                errors.as_slice(),
                upper.as_slice(),
            )
        },
        WifiBackend::Nmcli => {
            let secrets = chars_of("Secrets were required");
            let suitable = chars_of("No suitable");
            contains(errors.as_slice(), secrets.as_slice()) || contains(
                errors.as_slice(),
                suitable.as_slice(),
            )
        },
        WifiBackend::Wpa => false,
    };
    if backend == WifiBackend::Wpa || succeeded {
        glue("Connecting to ", ssid)
    } else if asks {
        message3("'", ssid, "' requires a password")
    } else if errors.len() == 0 {
        glue("Connecting to ", ssid)
    } else {
        let mut chars = chars_of("Failed: ");
        push_all(&mut chars, trim_chars(errors.as_slice()));
        string_of(chars.as_slice())
    }
}

/// What is left to do for wpa_supplicant once a network has been added:
/// the commands to run in order, and what to tell the user after them.
pub struct WpaPlan {
    pub calls: Vec<Invocation>,
    pub report: String,
}

/// The models of a list of commands, in order.
pub open spec fn calls_of(list: Seq<Invocation>) -> Seq<Call> {
    Seq::new(list.len(), |i: int| list[i]@)
}

/// The command that sets one entry of the network `id`.
pub open spec fn set_network_call(
    interface: Seq<char>,
    id: Seq<char>,
    key: Seq<char>,
    value: Seq<char>,
) -> Call {
    Call { program: "wpa_cli"@, args: seq!["-i"@, interface, "set_network"@, id, key, value] }
}

/// The command that selects the network `id`.
pub open spec fn select_network_call(interface: Seq<char>, id: Seq<char>) -> Call {
    Call { program: "wpa_cli"@, args: seq!["-i"@, interface, "select_network"@, id] }
}

/// A text in double quotes.
pub open spec fn quoted(text: Seq<char>) -> Seq<char> {
    "\""@ + text + "\""@
}

/// The commands that configure and select the network that `wpa_cli` has
/// added. `added` is what adding it printed: the network's id, with white
/// space around it. The name is set first. With an empty password nothing
/// more is done; with a password the key is set; without one the network is
/// marked as open. Then the network is selected.
pub open spec fn wpa_calls(
    interface: Seq<char>,
    ssid: Seq<char>,
    password: Option<Seq<char>>,
    added: Seq<char>,
) -> Seq<Call> {
    let id = trim(added);
    let name = set_network_call(interface, id, "ssid"@, quoted(ssid));
    match password {
        Some(psk) => if psk.len() == 0 {
            seq![name]
        } else {
            seq![
                name,
                set_network_call(interface, id, "psk"@, quoted(psk)),
                select_network_call(interface, id),
            ]
        },
        None => seq![
            name,
            set_network_call(interface, id, "key_mgmt"@, "NONE"@),
            select_network_call(interface, id),
        ],
    }
}

/// What to tell the user after the commands: that a password is needed
/// where an empty one was given, and else that the connection is under
/// way.
pub open spec fn wpa_report(ssid: Seq<char>, password: Option<Seq<char>>) -> Seq<char> {
    if password is Some && password->0.len() == 0 {
        needs_password_text(ssid)
    } else {
        connecting_text(ssid)
    }
}

/// Makes the command that sets one entry of a network.
fn set_network(interface: &str, id: &str, key: &str, value: &str) -> (call: Invocation)
    ensures
        call@ == set_network_call(interface@, id@, key@, value@),
{
    let call = call_with("wpa_cli", &["-i", interface, "set_network", id, key, value]);
    assert(call@.args =~= seq!["-i"@, interface@, "set_network"@, id@, key@, value@]);
    call
}

/// Plans what is left to do for wpa_supplicant once a network has been
/// added.
pub fn wpa_connect_plan(interface: &str, ssid: &str, password: Option<&str>, added: &str)
    -> (plan: WpaPlan)
    ensures
        calls_of(plan.calls@) == wpa_calls(interface@, ssid@, given(password), added@),
        plan.report@ == wpa_report(ssid@, given(password)),
{
    let printed = chars_of(added);
    let id = string_of(trim_chars(printed.as_slice()));
    let name = message3("\"", ssid, "\"");
    let mut calls: Vec<Invocation> = Vec::new();
    let first = set_network(interface, id.as_str(), "ssid", name.as_str());
    calls.push(first);
    match password {
        Some(psk) => {
            if chars_of(psk).len() == 0 {
                assert(calls_of(calls@) == wpa_calls(interface@, ssid@, given(password), added@));
                return WpaPlan { calls, report: message3("'", ssid, "' requires a password") };
            }
            let key = message3("\"", psk, "\"");
            let second = set_network(interface, id.as_str(), "psk", key.as_str());
            calls.push(second);
        },
        None => {
            let second = set_network(interface, id.as_str(), "key_mgmt", "NONE");
            calls.push(second);
        },
    }
    let select = call_with("wpa_cli", &["-i", interface, "select_network", id.as_str()]);
    assert(select@.args =~= seq!["-i"@, interface@, "select_network"@, id@]);
    calls.push(select);
    assert(calls_of(calls@) == wpa_calls(interface@, ssid@, given(password), added@));
    WpaPlan { calls, report: glue("Connecting to ", ssid) }
}

} // verus!
