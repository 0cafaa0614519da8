//! What the link listing and the system's facts say of the network
//! interfaces.
//!
//! A line of the link listing names one interface and carries its flags;
//! what else is known of the device comes from the system. This module
//! states as spec functions which interface a line describes, and the laws
//! that follow.

use vstd::prelude::*;
use crate::network::{
    Device, InterfaceState, InterfaceType, NetworkInterface, WirelessMode,
};
use crate::text::{before, has_prefix, lines, mentions, trimmed, without_trailing, word};

verus! {

/// One network interface: the mathematical value of a `NetworkInterface`.
pub struct InterfaceRecord {
    pub name: Seq<char>,
    pub mac_address: Option<Seq<char>>,
    pub ip_address: Option<Seq<char>>,
    pub state: InterfaceState,
    pub interface_type: InterfaceType,
    pub driver: Option<Seq<char>>,
}

/// What the system knows of one device besides its line in the link
/// listing: the mathematical value of a `DeviceFacts`.
pub struct Facts {
    pub wireless: bool,
    pub mac: Option<Seq<char>>,
    pub addresses: Option<Seq<char>>,
    pub driver: Option<Seq<char>>,
}

/// Nothing known of a device.
pub open spec fn nothing_known() -> Facts {
    Facts { wireless: false, mac: None, addresses: None, driver: None }
}

/// The line lists an interface: it has two words or more.
pub open spec fn is_listed(line: Seq<char>) -> bool {
    word(line, 1).len() > 0
}

/// The name of the interface that the line lists: its second word, less
/// the colons at its end.
pub open spec fn listed_name(line: Seq<char>) -> Seq<char> {
    without_trailing(word(line, 1), ':')
}

/// The name of the loopback device.
pub open spec fn loopback() -> Seq<char> {
    "lo"@
}

/// The state that the line reports: up where `state UP` stands anywhere
/// in it, else down where `state DOWN` does, else unknown.
pub open spec fn listed_state(line: Seq<char>) -> InterfaceState {
    if mentions(line, "state UP"@) {
        InterfaceState::Up
    } else if mentions(line, "state DOWN"@) {
        InterfaceState::Down
    } else {
        InterfaceState::Unknown
    }
}

/// The name is one that wireless devices are given.
pub open spec fn named_wireless(name: Seq<char>) -> bool {
    has_prefix(name, "wl"@) || has_prefix(name, "wlan"@) || has_prefix(name, "wifi"@)
}

/// The name is one that Ethernet devices are given.
pub open spec fn named_ethernet(name: Seq<char>) -> bool {
    has_prefix(name, "eth"@) || has_prefix(name, "en"@)
}

/// The name is one that virtual devices and bridges are given.
pub open spec fn named_virtual(name: Seq<char>) -> bool {
    has_prefix(name, "veth"@) || has_prefix(name, "docker"@) || has_prefix(name, "br-"@)
}

/// The kind of a device other than loopback. The system's own mark of
/// wireless capability decides before any name does; then the names are
/// tried in the order wireless, Ethernet, virtual.
pub open spec fn kind_of(name: Seq<char>, wireless: bool) -> InterfaceType {
    if wireless {
        InterfaceType::Wireless
    } else if named_wireless(name) {
        InterfaceType::Wireless
    } else if named_ethernet(name) {
        InterfaceType::Ethernet
    } else if named_virtual(name) {
        InterfaceType::Virtual
    } else {
        InterfaceType::Unknown
    }
}

/// The first of the lines that mentions `inet `.
pub open spec fn address_line(listing: Seq<Seq<char>>) -> Option<Seq<char>>
    decreases listing.len(),
{
    if listing.len() == 0 {
        None
    } else if mentions(listing[0], "inet "@) {
        Some(listing[0])
    } else {
        address_line(listing.drop_first())
    }
}

/// The address on a line of the address listing: what stands in its
/// second word before the first `/`.
pub open spec fn address_on(line: Seq<char>) -> Option<Seq<char>> {
    if word(line, 1).len() > 0 {
        Some(before(word(line, 1), "/"@))
    } else {
        None
    }
}

/// The first IPv4 address of an address listing. The first line that
/// mentions `inet ` decides; where it has no second word, there is no
/// address.
pub open spec fn first_address(listing: Seq<char>) -> Option<Seq<char>> {
    match address_line(lines(listing)) {
        Some(line) => address_on(line),
        None => None,
    }
}

/// The hardware address in the text that holds it.
pub open spec fn mac_in(facts: Facts) -> Option<Seq<char>> {
    match facts.mac {
        Some(text) => Some(trimmed(text)),
        None => None,
    }
}

/// The first IPv4 address that the facts give.
pub open spec fn address_in(facts: Facts) -> Option<Seq<char>> {
    match facts.addresses {
        Some(listing) => first_address(listing),
        None => None,
    }
}

/// The record of the loopback device: up, and nothing else looked at.
pub open spec fn loopback_record(name: Seq<char>) -> InterfaceRecord {
    InterfaceRecord {
        name,
        mac_address: None,
        ip_address: None,
        state: InterfaceState::Up,
        interface_type: InterfaceType::Loopback,
        driver: None,
    }
}

/// The interface that a line of the link listing describes, given what
/// the system knows of the device. A line of fewer than two words
/// describes none. Of the loopback device the facts are not looked at.
pub open spec fn interface_on(line: Seq<char>, facts: Facts) -> Option<InterfaceRecord> {
    if !is_listed(line) {
        None
    } else if listed_name(line) == loopback() {
        Some(loopback_record(listed_name(line)))
    } else {
        Some(
            InterfaceRecord {
                name: listed_name(line),
                mac_address: mac_in(facts),
                ip_address: address_in(facts),
                state: listed_state(line),
                interface_type: kind_of(listed_name(line), facts.wireless),
                driver: facts.driver,
            },
        )
    }
}

/// The device whose facts have to be looked up for a line of the link
/// listing: the one it lists, unless that is the loopback device.
pub open spec fn lookup_for(line: Seq<char>) -> Option<Seq<char>> {
    if is_listed(line) && listed_name(line) != loopback() {
        Some(listed_name(line))
    } else {
        None
    }
}

/// What is known of the device `name`: the facts of the first device of
/// that name, and nothing where there is none.
pub open spec fn facts_of(devices: Seq<Device>, name: Seq<char>) -> Facts
    decreases devices.len(),
{
    if devices.len() == 0 {
        nothing_known()
    } else if devices[0].name@ == name {
        devices[0].facts@
    } else {
        facts_of(devices.drop_first(), name)
    }
}

/// The interfaces that the lines of a link listing describe, in order.
pub open spec fn listed_interfaces(listing: Seq<Seq<char>>, devices: Seq<Device>) -> Seq<
    InterfaceRecord,
>
    decreases listing.len(),
{
    if listing.len() == 0 {
        Seq::empty()
    } else {
        let line = listing.last();
        let earlier = listed_interfaces(listing.drop_last(), devices);
        match interface_on(line, facts_of(devices, listed_name(line))) {
            Some(interface) => earlier.push(interface),
            None => earlier,
        }
    }
}

/// The devices whose facts have to be looked up for the lines of a link
/// listing, in order.
pub open spec fn lookups_for(listing: Seq<Seq<char>>) -> Seq<Seq<char>>
    decreases listing.len(),
{
    if listing.len() == 0 {
        Seq::empty()
    } else {
        let earlier = lookups_for(listing.drop_last());
        match lookup_for(listing.last()) {
            Some(name) => earlier.push(name),
            None => earlier,
        }
    }
}

/// The wireless ones among the interfaces, in order.
pub open spec fn wireless_only(interfaces: Seq<InterfaceRecord>) -> Seq<InterfaceRecord> {
    interfaces.filter(|i: InterfaceRecord| i.interface_type == InterfaceType::Wireless)
}

/// The mode that a device's description names. The words are looked for
/// anywhere in the text, and the first of these that is found decides:
/// `monitor`; `managed`; `AP` or `master`; `IBSS` or `ad-hoc`.
pub open spec fn mode_in(info: Seq<char>) -> WirelessMode {
    if mentions(info, "monitor"@) {
        WirelessMode::Monitor
    } else if mentions(info, "managed"@) {
        WirelessMode::Managed
    } else if mentions(info, "AP"@) || mentions(info, "master"@) {
        WirelessMode::Master
    } else if mentions(info, "IBSS"@) || mentions(info, "ad-hoc"@) {
        WirelessMode::Adhoc
    } else {
        WirelessMode::Unknown
    }
}

/// The records that a sequence of interfaces stands for.
pub open spec fn interface_records(interfaces: Seq<NetworkInterface>) -> Seq<InterfaceRecord> {
    interfaces.map_values(|i: NetworkInterface| i@)
}

/// The strings as sequences of characters.
pub open spec fn texts(strings: Seq<String>) -> Seq<Seq<char>> {
    strings.map_values(|s: String| s@)
}

/// Of an interface other than the loopback device the state is what the
/// markers on its line say: up with `state UP`, down with `state DOWN`
/// and no `state UP`, unknown with neither.
pub proof fn lemma_state_follows_marker(line: Seq<char>, facts: Facts)
    requires
        is_listed(line),
        listed_name(line) != loopback(),
    ensures
        interface_on(line, facts) is Some,
        mentions(line, "state UP"@) ==> interface_on(line, facts)->0.state == InterfaceState::Up,
        mentions(line, "state DOWN"@) && !mentions(line, "state UP"@) ==> interface_on(
            line,
            facts,
        )->0.state == InterfaceState::Down,
        !mentions(line, "state DOWN"@) && !mentions(line, "state UP"@) ==> interface_on(
            line,
            facts,
        )->0.state == InterfaceState::Unknown,
{
}

/// The loopback device is up and of the loopback kind whatever its line
/// and the facts say, it has no address and no driver, and nothing has to
/// be looked up for it.
pub proof fn lemma_loopback_needs_no_lookup(line: Seq<char>, facts: Facts)
    requires
        is_listed(line),
        listed_name(line) == loopback(),
    ensures
        lookup_for(line) is None,
        interface_on(line, facts) == Some(loopback_record(loopback())),
        interface_on(line, facts) == interface_on(line, nothing_known()),
{
}

/// A device that the system marks as capable of wireless operation is
/// wireless whatever its name.
pub proof fn lemma_capability_decides(name: Seq<char>)
    ensures
        kind_of(name, true) == InterfaceType::Wireless,
{
}

} // verus!
