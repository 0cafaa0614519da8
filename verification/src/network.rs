//! Network interfaces as the link listing and the system's per-device
//! facts describe them.

use vstd::prelude::*;
use crate::command::CommandOutput;
use crate::mac::{as_local, local_mac, mac_text};
use crate::outside::random_octet;
use crate::interface_model::{
    address_line, facts_of, first_address, interface_on, interface_records, is_listed, kind_of,
    listed_interfaces, listed_name, listed_state, lookup_for, lookups_for, loopback, mode_in,
    nothing_known, texts, wireless_only, Facts, InterfaceRecord,
};
use crate::text::{
    chars_of, contains, lines, same_chars, split_line, split_word, starts_with, string_of,
    text_before, text_of, trim, trim_end_matches, trimmed, word,
};

verus! {

/// Whether an interface is up.
#[derive(Debug, Clone, Copy, PartialEq, Eq, Structural)]
pub enum InterfaceState {
    Up,
    Down,
    Unknown,
}

impl InterfaceState {
    /// The name of the state as it is shown.
    pub open spec fn label(self) -> Seq<char> {
        match self {
            InterfaceState::Up => "UP"@,
            InterfaceState::Down => "DOWN"@,
            InterfaceState::Unknown => "UNKNOWN"@,
        }
    }

    /// The name of the state as it is shown.
    pub fn as_str(&self) -> (name: &'static str)
        ensures
            name@ == self.label(),
    {
        match self {
            InterfaceState::Up => "UP",
            InterfaceState::Down => "DOWN",
            InterfaceState::Unknown => "UNKNOWN",
        }
    }
}

/// What kind of device an interface is.
#[derive(Debug, Clone, Copy, PartialEq, Eq, Structural)]
pub enum InterfaceType {
    Wireless,
    Ethernet,
    Loopback,
    Virtual,
    Unknown,
}

impl InterfaceType {
    /// The name of the kind as it is shown.
    pub open spec fn label(self) -> Seq<char> {
        match self {
            InterfaceType::Wireless => "Wireless"@,
            InterfaceType::Ethernet => "Ethernet"@,
            InterfaceType::Loopback => "Loopback"@,
            InterfaceType::Virtual => "Virtual"@,
            InterfaceType::Unknown => "Unknown"@,
        }
    }

    /// The name of the kind as it is shown.
    pub fn as_str(&self) -> (name: &'static str)
        ensures
            name@ == self.label(),
    {
        match self {
            InterfaceType::Wireless => "Wireless",
            InterfaceType::Ethernet => "Ethernet",
            InterfaceType::Loopback => "Loopback",
            InterfaceType::Virtual => "Virtual",
            InterfaceType::Unknown => "Unknown",
        }
    }
}

/// The mode in which a wireless interface operates.
#[derive(Debug, Clone, Copy, PartialEq, Eq, Structural)]
pub enum WirelessMode {
    Managed,
    Monitor,
    Master,
    Adhoc,
    Unknown,
}

impl WirelessMode {
    /// The name of the mode as it is shown.
    pub open spec fn label(self) -> Seq<char> {
        match self {
            WirelessMode::Managed => "Managed"@,
            WirelessMode::Monitor => "Monitor"@,
            WirelessMode::Master => "Master"@,
            WirelessMode::Adhoc => "Ad-Hoc"@,
            WirelessMode::Unknown => "Unknown"@,
        }
    }

    /// The name of the mode as it is shown.
    pub fn as_str(&self) -> (name: &'static str)
        ensures
            name@ == self.label(),
    {
        match self {
            WirelessMode::Managed => "Managed",
            WirelessMode::Monitor => "Monitor",
            WirelessMode::Master => "Master",
            WirelessMode::Adhoc => "Ad-Hoc",
            WirelessMode::Unknown => "Unknown",
        }
    }
}

/// One network interface.
#[derive(Debug)]
pub struct NetworkInterface {
    pub name: String,
    pub mac_address: Option<String>,
    pub ip_address: Option<String>,
    pub state: InterfaceState,
    pub interface_type: InterfaceType,
    pub driver: Option<String>,
}

impl View for NetworkInterface {
    type V = InterfaceRecord;

    open spec fn view(&self) -> InterfaceRecord {
        InterfaceRecord {
            name: self.name@,
            mac_address: text_of(self.mac_address),
            ip_address: text_of(self.ip_address),
            state: self.state,
            interface_type: self.interface_type,
            driver: text_of(self.driver),
        }
    }
}

/// A copy of an optional string.
fn copy_text(text: &Option<String>) -> (copy: Option<String>)
    ensures
        copy == *text,
{
    match text {
        Some(s) => Some(s.clone()),
        None => None,
    }
}

impl Clone for NetworkInterface {
    fn clone(&self) -> (copy: Self)
        ensures
            copy == *self,
    {
        NetworkInterface {
            name: self.name.clone(),
            mac_address: copy_text(&self.mac_address),
            ip_address: copy_text(&self.ip_address),
            state: self.state,
            interface_type: self.interface_type,
            driver: copy_text(&self.driver),
        }
    }
}

/// What the system knows of one device besides its line in the link
/// listing. Each part that could not be read is absent.
#[derive(Debug)]
pub struct DeviceFacts {
    /// Whether the system marks the device as capable of wireless operation.
    pub wireless: bool,
    /// The text that holds the hardware address.
    pub mac: Option<String>,
    /// The listing of the device's IPv4 addresses.
    pub addresses: Option<String>,
    /// The name of the driver bound to the device.
    pub driver: Option<String>,
}

impl View for DeviceFacts {
    type V = Facts;

    open spec fn view(&self) -> Facts {
        Facts {
            wireless: self.wireless,
            mac: text_of(self.mac),
            addresses: text_of(self.addresses),
            driver: text_of(self.driver),
        }
    }
}

/// A device by name, with what the system knows of it.
#[derive(Debug)]
pub struct Device {
    pub name: String,
    pub facts: DeviceFacts,
}

/// Why the interfaces could not be listed.
#[derive(Debug, Clone, Copy, PartialEq, Eq, Structural)]
pub enum NetworkError {
    /// The command that lists the links reported failure.
    ListingFailed,
}

impl NetworkError {
    /// The error in words.
    pub open spec fn label(self) -> Seq<char> {
        "Failed to get network interfaces"@
    }

    /// The error in words.
    pub fn message(&self) -> (text: &'static str)
        ensures
            text@ == self.label(),
    {
        "Failed to get network interfaces"
    }
}

/// The record that an optional interface stands for.
pub open spec fn record_of(interface: Option<NetworkInterface>) -> Option<InterfaceRecord> {
    match interface {
        Some(i) => Some(i@),
        None => None,
    }
}

/// The interface classifier.
pub struct NetworkManager;

/// The name of the interface that a line lists, where it lists one.
fn name_on(line: &[char]) -> (name: Option<&[char]>)
    ensures
        match name {
            Some(n) => is_listed(line@) && n@ == listed_name(line@),
            None => !is_listed(line@),
        },
{
    reveal_with_fuel(word, 2);
    let (_, rest) = split_word(line);
    let (second, _) = split_word(rest);
    if second.len() == 0 {
        None
    } else {
        Some(trim_end_matches(second, ':'))
    }
}

/// Whether `name` is the name of the loopback device.
fn is_loopback(name: &[char]) -> (b: bool)
    ensures
        b == (name@ == loopback()),
{
    let lo = chars_of("lo");
    same_chars(name, lo.as_slice())
}

/// The state that a line of the link listing reports.
fn state_on(line: &[char]) -> (state: InterfaceState)
    ensures
        state == listed_state(line@),
{
    if contains(line, "state UP") {
        InterfaceState::Up
    } else if contains(line, "state DOWN") {
        InterfaceState::Down
    } else {
        InterfaceState::Unknown
    }
}

/// The kind of a device other than loopback.
fn kind_from(name: &[char], wireless: bool) -> (kind: InterfaceType)
    ensures
        kind == kind_of(name@, wireless),
{
    if wireless {
        InterfaceType::Wireless
    } else if starts_with(name, "wl") || starts_with(name, "wlan") || starts_with(name, "wifi") {
        InterfaceType::Wireless
    } else if starts_with(name, "eth") || starts_with(name, "en") {
        InterfaceType::Ethernet
    } else if starts_with(name, "veth") || starts_with(name, "docker") || starts_with(
        name,
        "br-",
    ) {
        InterfaceType::Virtual
    } else {
        InterfaceType::Unknown
    }
}

/// The first IPv4 address of an address listing.
fn address_from(listing: &[char]) -> (address: Option<String>)
    ensures
        text_of(address) == first_address(listing@),
{
    let mut rest: &[char] = listing;
    while rest.len() > 0
        invariant
            address_line(lines(listing@)) == address_line(lines(rest@)),
        decreases rest.len(),
    {
        let (line, next) = split_line(rest);
        assert(lines(rest@).drop_first() == lines(next@));
        if contains(line, "inet ") {
            reveal_with_fuel(word, 2);
            let (_, after) = split_word(line);
            let (second, _) = split_word(after);
            if second.len() == 0 {
                return None;
            }
            return Some(string_of(text_before(second, "/")));
        }
        rest = next;
    }
    None
}

/// The facts of the first device named `name`.
fn facts_for<'a>(devices: &'a Vec<Device>, name: &[char]) -> (found: Option<&'a DeviceFacts>)
    ensures
        match found {
            Some(facts) => facts@ == facts_of(devices@, name@),
            None => facts_of(devices@, name@) == nothing_known(),
        },
{
    let mut i: usize = 0;
    assert(devices@.skip(0) == devices@);
    while i < devices.len()
        invariant
            i <= devices.len(),
            facts_of(devices@, name@) == facts_of(devices@.skip(i as int), name@),
        decreases devices.len() - i,
    {
        let known = chars_of(devices[i].name.as_str());
        assert(devices@.skip(i as int).drop_first() == devices@.skip(i + 1));
        if same_chars(known.as_slice(), name) {
            return Some(&devices[i].facts);
        }
        i += 1;
    }
    None
}

/// The interface that a line of the link listing describes.
fn interface_from(line: &[char], facts: &DeviceFacts) -> (interface: Option<NetworkInterface>)
    ensures
        record_of(interface) == interface_on(line@, facts@),
{
    let name = match name_on(line) {
        Some(name) => name,
        None => {
            return None;
        },
    };
    if is_loopback(name) {
        return Some(
            NetworkInterface {
                name: string_of(name),
                mac_address: None,
                ip_address: None,
                state: InterfaceState::Up,
                interface_type: InterfaceType::Loopback,
                driver: None,
            },
        );
    }
    let state = state_on(line);
    let interface_type = kind_from(name, facts.wireless);
    let mac_address = match &facts.mac {
        Some(text) => {
            let text = chars_of(text.as_str());
            Some(string_of(trim(text.as_slice())))
        },
        None => None,
    };
    let ip_address = match &facts.addresses {
        Some(listing) => {
            let listing = chars_of(listing.as_str());
            address_from(listing.as_slice())
        },
        None => None,
    };
    let driver = copy_text(&facts.driver);
    Some(
        NetworkInterface {
            name: string_of(name),
            mac_address,
            ip_address,
            state,
            interface_type,
            driver,
        },
    )
}

impl NetworkManager {
    /// The name of the interface that a line of the link listing lists.
    pub fn interface_name(line: &str) -> (name: Option<String>)
        ensures
            match name {
                Some(n) => is_listed(line@) && n@ == listed_name(line@),
                None => !is_listed(line@),
            },
    {
        let line = chars_of(line);
        match name_on(line.as_slice()) {
            Some(name) => Some(string_of(name)),
            None => None,
        }
    }

    /// The device whose facts have to be looked up before the line can be
    /// turned into an interface. There is none for a line that lists no
    /// interface, and none for the loopback device.
    pub fn lookup_target(line: &str) -> (name: Option<String>)
        ensures
            text_of(name) == lookup_for(line@),
    {
        let line = chars_of(line);
        match name_on(line.as_slice()) {
            Some(name) => {
                if is_loopback(name) {
                    None
                } else {
                    Some(string_of(name))
                }
            },
            None => None,
        }
    }

    /// The devices whose facts have to be looked up for the lines of a
    /// link listing, in order.
    pub fn lookup_targets(listing: &str) -> (names: Vec<String>)
        ensures
            texts(names@) == lookups_for(lines(listing@)),
    {
        let text = chars_of(listing);
        let mut rest: &[char] = text.as_slice();
        let mut names: Vec<String> = Vec::new();
        let ghost mut done: Seq<Seq<char>> = Seq::empty();
        assert(lines(text@) == done + lines(rest@));
        assert(texts(names@) == Seq::<Seq<char>>::empty());
        while rest.len() > 0
            invariant
                lines(text@) == done + lines(rest@),
                texts(names@) == lookups_for(done),
            decreases rest.len(),
        {
            let (line, next) = split_line(rest);
            proof {
                let longer = done.push(line@);
                assert(longer.drop_last() == done);
                assert(done + lines(rest@) == longer + lines(next@));
            }
            match name_on(line) {
                Some(name) => {
                    if !is_loopback(name) {
                        let name = string_of(name);
                        assert(texts(names@.push(name)) == texts(names@).push(name@));
                        names.push(name);
                    }
                },
                None => {},
            }
            proof {
                done = done.push(line@);
            }
            rest = next;
        }
        assert(done + lines(rest@) == done);
        names
    }

    /// The kind of the device `name`, which is not the loopback device.
    /// `wireless` says whether the system marks it as capable of wireless
    /// operation.
    pub fn detect_interface_type(name: &str, wireless: bool) -> (kind: InterfaceType)
        ensures
            kind == kind_of(name@, wireless),
    {
        let name = chars_of(name);
        kind_from(name.as_slice(), wireless)
    }

    /// The hardware address in the text that holds it.
    pub fn get_mac_address(contents: &str) -> (address: String)
        ensures
            address@ == trimmed(contents@),
    {
        let text = chars_of(contents);
        string_of(trim(text.as_slice()))
    }

    /// The first IPv4 address of an address listing.
    pub fn get_ip_address(listing: &str) -> (address: Option<String>)
        ensures
            text_of(address) == first_address(listing@),
    {
        let text = chars_of(listing);
        address_from(text.as_slice())
    }

    /// The interface that a line of the link listing describes, given what
    /// the system knows of the device.
    pub fn parse_interface_line(line: &str, facts: &DeviceFacts) -> (interface: Option<
        NetworkInterface,
    >)
        ensures
            record_of(interface) == interface_on(line@, facts@),
    {
        let line = chars_of(line);
        interface_from(line.as_slice(), facts)
    }

    /// The interfaces that the link listing describes, in its order. The
    /// facts of each device are those of the first entry of `devices` with
    /// its name; of a device without an entry nothing is known. Where the
    /// listing command failed there is no listing to read.
    pub fn get_interfaces(output: &CommandOutput, devices: &Vec<Device>) -> (result: Result<
        Vec<NetworkInterface>,
        NetworkError,
    >)
        ensures
            match result {
                Ok(interfaces) => output.success && interface_records(interfaces@)
                    == listed_interfaces(lines(output.stdout@), devices@),
                Err(error) => !output.success && error == NetworkError::ListingFailed,
            },
    {
        if !output.success {
            return Err(NetworkError::ListingFailed);
        }
        let text = chars_of(output.stdout.as_str());
        let mut rest: &[char] = text.as_slice();
        let mut interfaces: Vec<NetworkInterface> = Vec::new();
        let ghost mut done: Seq<Seq<char>> = Seq::empty();
        assert(lines(text@) == done + lines(rest@));
        assert(interface_records(interfaces@) == Seq::<InterfaceRecord>::empty());
        while rest.len() > 0
            invariant
                lines(text@) == done + lines(rest@),
                interface_records(interfaces@) == listed_interfaces(done, devices@),
            decreases rest.len(),
        {
            let (line, next) = split_line(rest);
            proof {
                let longer = done.push(line@);
                assert(longer.drop_last() == done);
                assert(done + lines(rest@) == longer + lines(next@));
            }
            let unknown = DeviceFacts { wireless: false, mac: None, addresses: None, driver: None };
            let found = match name_on(line) {
                Some(name) => match facts_for(devices, name) {
                    Some(facts) => interface_from(line, facts),
                    None => interface_from(line, &unknown),
                },
                None => None,
            };
            if let Some(interface) = found {
                assert(interface_records(interfaces@.push(interface)) == interface_records(
                    interfaces@,
                ).push(interface@));
                interfaces.push(interface);
            }
            proof {
                done = done.push(line@);
            }
            rest = next;
        }
        assert(done + lines(rest@) == done);
        Ok(interfaces)
    }

    /// The wireless ones among the interfaces that the link listing
    /// describes.
    pub fn get_wireless_interfaces(output: &CommandOutput, devices: &Vec<Device>) -> (result:
        Result<Vec<NetworkInterface>, NetworkError>)
        ensures
            match result {
                Ok(interfaces) => output.success && interface_records(interfaces@)
                    == wireless_only(listed_interfaces(lines(output.stdout@), devices@)),
                Err(error) => !output.success && error == NetworkError::ListingFailed,
            },
    {
        let all = match NetworkManager::get_interfaces(output, devices) {
            Ok(all) => all,
            Err(error) => {
                return Err(error);
            },
        };
        let ghost listed = all@;
        let mut wireless: Vec<NetworkInterface> = Vec::new();
        assert(interface_records(listed.take(0)) == Seq::<InterfaceRecord>::empty());
        assert(wireless_only(Seq::<InterfaceRecord>::empty()) == Seq::<InterfaceRecord>::empty())
            by {
            reveal(Seq::filter);
        }
        assert(interface_records(wireless@) == Seq::<InterfaceRecord>::empty());
        for interface in iter: all
            invariant
                iter.seq() == listed,
                interface_records(wireless@) == wireless_only(
                    interface_records(listed.take(iter.index() as int)),
                ),
        {
            proof {
                broadcast use Seq::lemma_filter_push;

                let k = iter.index() as int;
                let seen = interface_records(listed.take(k + 1));
                assert(seen == interface_records(listed.take(k)).push(interface@));
                assert(interface_records(wireless@.push(interface)) == interface_records(
                    wireless@,
                ).push(interface@));
            }
            if interface.interface_type == InterfaceType::Wireless {
                wireless.push(interface);
            }
        }
        assert(listed.take(listed.len() as int) == listed);
        Ok(wireless)
    }

    /// A hardware address drawn at random: six octets, the first marked
    /// as locally administered, written in base sixteen with colons
    /// between them.
    pub fn generate_random_mac() -> (mac: String)
        ensures
            exists|octets: Seq<u8>| octets.len() == 6 && mac@ == mac_text(as_local(octets)),
    {
        let mut rng = rand::thread_rng();
        let first = random_octet(&mut rng);
        let second = random_octet(&mut rng);
        let third = random_octet(&mut rng);
        let fourth = random_octet(&mut rng);
        let fifth = random_octet(&mut rng);
        let sixth = random_octet(&mut rng);
        let octets: [u8; 6] = [first, second, third, fourth, fifth, sixth];
        assert(octets@.len() == 6);
        local_mac(octets)
    }

    /// The mode that a wireless device's description names.
    pub fn get_wireless_mode(info: &str) -> (mode: WirelessMode)
        ensures
            mode == mode_in(info@),
    {
        let info = chars_of(info);
        let info = info.as_slice();
        if contains(info, "monitor") {
            WirelessMode::Monitor
        } else if contains(info, "managed") {
            WirelessMode::Managed
        } else if contains(info, "AP") || contains(info, "master") {
            WirelessMode::Master
        } else if contains(info, "IBSS") || contains(info, "ad-hoc") {
            WirelessMode::Adhoc
        } else {
            WirelessMode::Unknown
        }
    }
}

} // verus!
