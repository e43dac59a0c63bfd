//! The network: the primary interface, its addresses and its wireless link.

use crate::modules::SystemInfo;
use crate::text::{
    find_text, first_occurrence, has_prefix, lemma_occurs_at_first, lemma_span_before, span_before,
    slice_text, starts_with, to_chars, trim_text, trimmed,
};
use vstd::prelude::*;

verus! {

/// What is known of the primary network interface.
pub struct NetInfo {
    pub ip: String,
    pub mac: String,
    pub iface: String,
    pub wifi_ssid: String,
    pub wifi_signal: String,
}

impl Default for NetInfo {
    /// The network of which nothing is known.
    fn default() -> (unknown: NetInfo)
        ensures
            unknown.ip@ == "unknown"@,
            unknown.mac@ == "unknown"@,
            unknown.iface@ == "unknown"@,
            unknown.wifi_ssid@ == "unknown"@,
            unknown.wifi_signal@ == "unknown"@,
    {
        NetInfo {
            ip: String::from_str("unknown"),
            mac: String::from_str("unknown"),
            iface: String::from_str("unknown"),
            wifi_ssid: String::from_str("unknown"),
            wifi_signal: String::from_str("unknown"),
        }
    }
}

/// The table after the facts of `net` were set.
pub open spec fn net_facts(
    table: Map<Seq<char>, Seq<char>>,
    net: NetInfo,
) -> Map<Seq<char>, Seq<char>> {
    table
        .insert("net_ip"@, net.ip@)
        .insert("net_mac"@, net.mac@)
        .insert("net_iface"@, net.iface@)
        .insert("net_wifi_ssid"@, net.wifi_ssid@)
        .insert("net_wifi_signal"@, net.wifi_signal@)
}

/// Sets the facts `net_ip`, `net_mac`, `net_iface`, `net_wifi_ssid` and `net_wifi_signal`.
pub fn load_net_info(info: &mut SystemInfo, net: &NetInfo)
    ensures
        final(info)@ == net_facts(old(info)@, *net),
{
    info.insert(String::from_str("net_ip"), net.ip.clone());
    info.insert(String::from_str("net_mac"), net.mac.clone());
    info.insert(String::from_str("net_iface"), net.iface.clone());
    info.insert(String::from_str("net_wifi_ssid"), net.wifi_ssid.clone());
    info.insert(String::from_str("net_wifi_signal"), net.wifi_signal.clone());
}

/// Whether the name of an interface is that of a wireless one.
pub open spec fn is_wireless(name: Seq<char>) -> bool {
    has_prefix(name, "wl"@)
}

/// Tests whether the name of an interface is that of a wireless one.
pub fn interface_is_wireless(name: &str) -> (b: bool)
    ensures
        b == is_wireless(name@),
{
    starts_with(name, "wl")
}

/// The signal level that the wireless settings tell: what stands between the
/// first `Signal level=` and the next space. Without either there is none.
pub open spec fn signal_level(settings: Seq<char>) -> Option<Seq<char>> {
    match first_occurrence(settings, "Signal level="@) {
        Some(at) => {
            let rest = settings.skip((at + "Signal level="@.len()) as int);
            let end = span_before(rest, ' ');
            if end < rest.len() {
                Some(rest.take(end as int))
            } else {
                None
            }
        },
        None => None,
    }
}

/// Finds the signal level in the wireless settings of an interface.
pub fn find_signal_level(settings: &str) -> (level: Option<String>)
    ensures
        match level {
            Some(text) => signal_level(settings@) == Some(text@),
            None => signal_level(settings@) is None,
        },
{
    let chars = to_chars(settings);
    let len: usize = chars.len();
    let mark: &str = "Signal level=";
    match find_text(settings, mark) {
        Some(at) => {
            let size: usize = mark.unicode_len();
            proof {
                lemma_occurs_at_first(settings@, mark@);
                assert(settings@.skip(at as int).len() == len - at);
            }
            let start: usize = at + size;
            let ghost rest = settings@.skip(start as int);
            let mut end: usize = start;
            while end < len && chars[end] != ' '
                invariant
                    chars@ == settings@,
                    len == settings@.len(),
                    start <= end <= len,
                    forall|j: int| start <= j < end ==> settings@[j] != ' ',
                decreases len - end,
            {
                end += 1;
            }
            proof {
                lemma_span_before(rest, ' ', end - start);
                assert(rest.take(end - start) =~= settings@.subrange(start as int, end as int));
            }
            if end < len {
                Some(slice_text(&chars, start, end))
            } else {
                None
            }
        },
        None => None,
    }
}

/// A hardware address as it is shown, and whether all of it is zero.
pub struct MacAddress {
    pub text: String,
    pub is_zero: bool,
}

/// An address of an interface as it is shown, and whether it is an IPv4 address.
pub struct Address {
    pub ip: String,
    pub is_ipv4: bool,
}

/// A network interface: its name, whether it is up, its hardware address where
/// it has one, and its addresses.
pub struct Interface {
    pub name: String,
    pub up: bool,
    pub mac: Option<MacAddress>,
    pub ips: Vec<Address>,
}

/// What the search for the primary interface ends with: the interface and that
/// of its addresses to show, or an interface that is up and has addresses but no
/// hardware address to judge it by, or nothing.
#[derive(Clone, Copy, Debug, PartialEq, Eq, Structural)]
pub enum Choice {
    Primary { interface: usize, address: usize },
    NoMac { interface: usize },
    Nothing,
}

/// The place of the first IPv4 address at or behind `from`.
pub open spec fn first_ipv4(ips: Seq<Address>, from: int) -> Option<int>
    decreases ips.len() - from,
{
    if from < 0 || from >= ips.len() {
        None
    } else if ips[from].is_ipv4 {
        Some(from)
    } else {
        first_ipv4(ips, from + 1)
    }
}

/// The end of the search from the interface `from` on. The interfaces are
/// looked at in order. One that is down or has no addresses is passed over. One
/// without a hardware address ends the search. One whose hardware address is
/// not zero and that has an IPv4 address is the primary one, with the first
/// such address.
pub open spec fn choice_from(interfaces: Seq<Interface>, from: int) -> Choice
    decreases interfaces.len() - from,
{
    if from < 0 || from >= interfaces.len() {
        Choice::Nothing
    } else {
        let interface = interfaces[from];
        if interface.up && interface.ips@.len() > 0 {
            match interface.mac {
                None => Choice::NoMac { interface: from as usize },
                Some(mac) => match first_ipv4(interface.ips@, 0) {
                    Some(address) => if mac.is_zero {
                        choice_from(interfaces, from + 1)
                    } else {
                        Choice::Primary { interface: from as usize, address: address as usize }
                    },
                    None => choice_from(interfaces, from + 1),
                },
            }
        } else {
            choice_from(interfaces, from + 1)
        }
    }
}

/// Finds the first IPv4 address among the addresses of an interface.
fn find_ipv4(ips: &Vec<Address>) -> (found: Option<usize>)
    ensures
        match found {
            Some(at) => first_ipv4(ips@, 0) == Some(at as int),
            None => first_ipv4(ips@, 0) is None,
        },
{
    let mut i: usize = 0;
    while i < ips.len()
        invariant
            i <= ips@.len(),
            first_ipv4(ips@, 0) == first_ipv4(ips@, i as int),
        decreases ips@.len() - i,
    {
        if ips[i].is_ipv4 {
            return Some(i);
        }
        i += 1;
    }
    None
}

/// Searches the interfaces for the primary one.
pub fn choose_interface(interfaces: &Vec<Interface>) -> (choice: Choice)
    ensures
        choice == choice_from(interfaces@, 0),
        match choice {
            Choice::Primary { interface, address } => interface < interfaces@.len() && address
                < interfaces@[interface as int].ips@.len() && interfaces@[interface as int].mac
                is Some,
            Choice::NoMac { interface } => interface < interfaces@.len(),
            Choice::Nothing => true,
        },
{
    let mut i: usize = 0;
    while i < interfaces.len()
        invariant
            i <= interfaces@.len(),
            choice_from(interfaces@, 0) == choice_from(interfaces@, i as int),
        decreases interfaces@.len() - i,
    {
        let interface = &interfaces[i];
        if interface.up && interface.ips.len() > 0 {
            match &interface.mac {
                None => {
                    return Choice::NoMac { interface: i };
                },
                Some(mac) => match find_ipv4(&interface.ips) {
                    Some(address) => {
                        if !mac.is_zero {
                            proof {
                                lemma_first_ipv4_in_range(interface.ips@, 0);
                            }
                            return Choice::Primary { interface: i, address };
                        }
                    },
                    None => {},
                },
            }
        }
        i += 1;
    }
    Choice::Nothing
}

/// The first IPv4 address is one of the addresses.
proof fn lemma_first_ipv4_in_range(ips: Seq<Address>, from: int)
    requires
        0 <= from,
        first_ipv4(ips, from) is Some,
    ensures
        from <= first_ipv4(ips, from)->0 < ips.len(),
        ips[first_ipv4(ips, from)->0].is_ipv4,
    decreases ips.len() - from,
{
    if from < ips.len() && !ips[from].is_ipv4 {
        lemma_first_ipv4_in_range(ips, from + 1);
    }
}

/// What a command printed, without the white space around it, and `unknown`
/// where it printed nothing that can be shown.
pub open spec fn network_name(printed: Option<&str>) -> Seq<char> {
    match printed {
        Some(text) => trimmed(text@),
        None => "unknown"@,
    }
}

/// What is known of the network from its primary interface: the address to
/// show, the interface's name and its hardware address. For a wireless
/// interface, `ssid` is what the query for the network's name printed and
/// `settings` what the query for the wireless settings printed, each where the
/// query succeeded; they give the network's name and the signal level. What is
/// not told is `unknown`.
pub fn get_net(
    interface: &Interface,
    address: usize,
    ssid: Option<&str>,
    settings: Option<&str>,
) -> (net: NetInfo)
    requires
        address < interface.ips@.len(),
        interface.mac is Some,
    ensures
        net.ip@ == interface.ips@[address as int].ip@,
        net.iface@ == interface.name@,
        net.mac@ == interface.mac->0.text@,
        net.wifi_ssid@ == if is_wireless(interface.name@) {
            network_name(ssid)
        } else {
            "unknown"@
        },
        net.wifi_signal@ == if is_wireless(interface.name@) && settings is Some && signal_level(
            settings->0@,
        ) is Some {
            signal_level(settings->0@)->0
        } else {
            "unknown"@
        },
{
    let mut net = NetInfo::default();
    net.ip = interface.ips[address].ip.clone();
    net.iface = interface.name.clone();
    match &interface.mac {
        Some(mac) => {
            net.mac = mac.text.clone();
        },
        None => {},
    }
    if interface_is_wireless(interface.name.as_str()) {
        match ssid {
            Some(text) => {
                net.wifi_ssid = trim_text(text);
            },
            None => {},
        }
        match settings {
            Some(text) => match find_signal_level(text) {
                Some(level) => {
                    net.wifi_signal = level;
                },
                None => {},
            },
            None => {},
        }
    }
    net
}

} // verus!
