//! Network interfaces as `networkctl` reports them, and bringing one up or
//! down.

use vstd::prelude::*;
use crate::command::{call2, invoke2, Invocation};
use crate::text::chars::{chars_of, push_str, string_of};
use crate::text::number::{decimal_digits, push_decimal};
use crate::text::scan::same_text;

verus! {

/// A network interface.
#[derive(Clone)]
pub struct Interface {
    pub name: String,
    pub itype: String,
    pub oper_state: String,
    /// The first IPv4 address, in dotted notation.
    pub address: Option<String>,
}

/// What a report holds on one interface: each entry is there or not, as the
/// report has it. An address is a list of numbers, each of which may be
/// missing too.
pub struct RawInterface {
    pub name: Option<String>,
    pub itype: Option<String>,
    pub oper_state: Option<String>,
    pub addresses: Vec<Option<Vec<Option<u64>>>>,
}

/// The mathematical model of an [`Interface`].
pub struct Link {
    pub name: Seq<char>,
    pub itype: Seq<char>,
    pub oper_state: Seq<char>,
    pub address: Option<Seq<char>>,
}

impl View for Interface {
    type V = Link;

    open spec fn view(&self) -> Link {
        Link {
            name: self.name@,
            itype: self.itype@,
            oper_state: self.oper_state@,
            address: match self.address {
                Some(text) => Some(text@),
                None => None,
            },
        }
    }
}

/// The models of a list of interfaces, in order.
pub open spec fn links(list: Seq<Interface>) -> Seq<Link> {
    Seq::new(list.len(), |i: int| list[i]@)
}

/// The text of an entry, or `default` where the entry is missing.
pub open spec fn text_or(entry: Option<String>, default: Seq<char>) -> Seq<char> {
    match entry {
        Some(text) => text@,
        None => default,
    }
}

/// The four numbers as decimal numerals with dots between them.
pub open spec fn dotted(a: u64, b: u64, c: u64, d: u64) -> Seq<char> {
    decimal_digits(a as nat) + seq!['.'] + decimal_digits(b as nat) + seq!['.']
        + decimal_digits(c as nat) + seq!['.'] + decimal_digits(d as nat)
}

/// The dotted notation of an address: it has one where it is a list of
/// exactly four numbers, none of them missing.
pub open spec fn address_text(address: Option<Vec<Option<u64>>>) -> Option<Seq<char>> {
    match address {
        Some(bytes) => if bytes@.len() == 4 && bytes@[0] is Some && bytes@[1] is Some
            && bytes@[2] is Some && bytes@[3] is Some {
            Some(dotted(bytes@[0]->0, bytes@[1]->0, bytes@[2]->0, bytes@[3]->0))
        } else {
            None
        },
        None => None,
    }
}

/// The first address from index `from` on that has a dotted notation.
pub open spec fn first_address(addresses: Seq<Option<Vec<Option<u64>>>>, from: int) -> Option<
    Seq<char>,
>
    decreases addresses.len() - from,
{
    if from >= addresses.len() {
        None
    } else if address_text(addresses[from]) is Some {
        address_text(addresses[from])
    } else {
        first_address(addresses, from + 1)
    }
}

/// The interface that an entry of the report describes. An entry without a
/// name and the loopback interface `lo` describe none. A missing type
/// reads as `unknown`, a missing state as `off`.
pub open spec fn link_of(raw: RawInterface) -> Option<Link> {
    match raw.name {
        Some(name) => if name@ == "lo"@ {
            None
        } else {
            Some(
                Link {
                    name: name@,
                    itype: text_or(raw.itype, "unknown"@),
                    oper_state: text_or(raw.oper_state, "off"@),
                    address: first_address(raw.addresses@, 0),
                },
            )
        },
        None => None,
    }
}

/// The interfaces that the entries describe, in order.
pub open spec fn links_of(entries: Seq<RawInterface>) -> Seq<Link> {
    entries.filter_map(|raw: RawInterface| link_of(raw))
}

/// Writes an address in dotted notation.
pub fn format_address(address: &Option<Vec<Option<u64>>>) -> (text: Option<String>)
    ensures
        match text {
            Some(t) => address_text(*address) == Some(t@),
            None => address_text(*address) is None,
        },
{
    match address {
        Some(bytes) => {
            if bytes.len() != 4 {
                return None;
            }
            match (bytes[0], bytes[1], bytes[2], bytes[3]) {
                (Some(a), Some(b), Some(c), Some(d)) => {
                    let mut out: Vec<char> = Vec::new();
                    push_decimal(&mut out, a);
                    out.push('.');
                    push_decimal(&mut out, b);
                    out.push('.');
                    push_decimal(&mut out, c);
                    out.push('.');
                    push_decimal(&mut out, d);
                    assert(out@ == dotted(a, b, c, d));
                    Some(string_of(out.as_slice()))
                },
                _ => None,
            }
        },
        None => None,
    }
}

/// Copies the text of an entry, or takes `default` where it is missing.
pub fn entry_or(entry: &Option<String>, default: &str) -> (text: String)
    ensures
        text@ == text_or(*entry, default@),
{
    match entry {
        Some(text) => text.clone(),
        None => default.to_owned(),
    }
}

/// Finds the first address that has a dotted notation.
pub fn find_address(addresses: &Vec<Option<Vec<Option<u64>>>>) -> (text: Option<String>)
    ensures
        match text {
            Some(t) => first_address(addresses@, 0) == Some(t@),
            None => first_address(addresses@, 0) is None,
        },
{
    let mut i: usize = 0;
    while i < addresses.len()
        invariant
            i <= addresses@.len(),
            first_address(addresses@, 0) == first_address(addresses@, i as int),
        decreases addresses@.len() - i,
    {
        let found = format_address(&addresses[i]);
        if found.is_some() {
            return found;
        }
        i += 1;
    }
    None
}

/// Reads one entry of the report.
pub fn read_interface(raw: &RawInterface) -> (entry: Option<Interface>)
    ensures
        match entry {
            Some(interface) => link_of(*raw) == Some(interface@),
            None => link_of(*raw) is None,
        },
{
    match &raw.name {
        Some(name) => {
            let chars = chars_of(name.as_str());
            let loopback = chars_of("lo");
            if same_text(chars.as_slice(), loopback.as_slice()) {
                return None;
            }
            Some(
                Interface {
                    name: name.clone(),
                    itype: entry_or(&raw.itype, "unknown"),
                    oper_state: entry_or(&raw.oper_state, "off"),
                    address: find_address(&raw.addresses),
                },
            )
        },
        None => None,
    }
}

/// The interfaces of a report, without the loopback interface.
pub fn get_interfaces(entries: &[RawInterface]) -> (list: Vec<Interface>)
    ensures
        links(list@) == links_of(entries@),
{
    let mut list: Vec<Interface> = Vec::new();
    let mut i: usize = 0;
    assert(links(list@) == Seq::<Link>::empty());
    while i < entries.len()
        invariant
            i <= entries@.len(),
            links(list@) == links_of(entries@.take(i as int)),
        decreases entries@.len() - i,
    {
        let ghost before = links(list@);
        proof {
            assert(entries@.take(i + 1).drop_last() == entries@.take(i as int));
            assert(entries@.take(i + 1).last() == entries@[i as int]);
        }
        match read_interface(&entries[i]) {
            Some(interface) => {
                list.push(interface);
                assert(links(list@) == before + seq![interface@]);
            },
            None => {},
        }
        i += 1;
    }
    assert(entries@.take(entries@.len() as int) == entries@);
    list
}

/// The word for bringing an interface up or down.
pub open spec fn action_word(bring_up: bool) -> Seq<char> {
    if bring_up {
        "up"@
    } else {
        "down"@
    }
}

/// The command that brings an interface up or down; it needs the rights of
/// the superuser.
pub fn toggle_command(interface: &str, bring_up: bool) -> (call: Invocation)
    ensures
        call@ == call2("networkctl"@, action_word(bring_up), interface@),
{
    let action = if bring_up {
        "up"
    } else {
        "down"
    };
    invoke2("networkctl", action, interface)
}

/// The text of a result, be it the output or the error.
pub open spec fn result_text(r: Result<String, String>) -> Result<Seq<char>, Seq<char>> {
    match r {
        Ok(text) => Ok(text@),
        Err(text) => Err(text@),
    }
}

/// What to tell the user once the command has run: the interface and what
/// was done to it where the command went well, and what went wrong
/// otherwise. Only a missing password stays an error, so that the caller can
/// ask for one; any other failure is handed on as the text to show.
pub open spec fn toggle_outcome(
    interface: Seq<char>,
    bring_up: bool,
    outcome: Result<Seq<char>, Seq<char>>,
) -> Result<Seq<char>, Seq<char>> {
    match outcome {
        Ok(_) => Ok(interface + seq![' '] + action_word(bring_up)),
        Err(reason) => if reason == "Sudo password required"@ {
            Err(reason)
        } else {
            Ok(reason)
        },
    }
}

/// Says what became of bringing an interface up or down, from the outcome
/// of the command.
pub fn toggle_interface(interface: &str, bring_up: bool, outcome: Result<String, String>) -> (r:
    Result<String, String>)
    ensures
        result_text(r) == toggle_outcome(interface@, bring_up, result_text(outcome)),
{
    match outcome {
        Ok(_) => {
            let action = if bring_up {
                "up"
            } else {
                "down"
            };
            let mut chars = chars_of(interface);
            chars.push(' ');
            push_str(&mut chars, action);
            assert(chars@ == interface@ + seq![' '] + action_word(bring_up));
            Ok(string_of(chars.as_slice()))
        },
        Err(reason) => {
            let text = chars_of(reason.as_str());
            let wanted = chars_of("Sudo password required");
            if same_text(text.as_slice(), wanted.as_slice()) {
                Err(reason)
            } else {
                Ok(reason)
            }
        },
    }
}

} // verus!
