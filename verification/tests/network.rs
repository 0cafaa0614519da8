use sozin::command::CommandOutput;
use sozin::mac::local_mac;
use sozin::network::{
    Device, DeviceFacts, InterfaceState, InterfaceType, NetworkError, NetworkInterface,
    NetworkManager, WirelessMode,
};

fn facts(wireless: bool, mac: Option<&str>, addresses: Option<&str>, driver: Option<&str>) -> DeviceFacts {
    DeviceFacts {
        wireless,
        mac: mac.map(|s| s.to_string()),
        addresses: addresses.map(|s| s.to_string()),
        driver: driver.map(|s| s.to_string()),
    }
}

fn nothing() -> DeviceFacts {
    facts(false, None, None, None)
}

fn listing(success: bool, stdout: &str) -> CommandOutput {
    CommandOutput { success, stdout: stdout.to_string(), stderr: String::new() }
}

fn state_of(line: &str) -> InterfaceState {
    NetworkManager::parse_interface_line(line, &nothing()).unwrap().state
}

const LINKS: &str = "1: lo: <LOOPBACK,UP,LOWER_UP> mtu 65536 qdisc noqueue state UNKNOWN mode DEFAULT group default qlen 1000\\    link/loopback 00:00:00:00:00:00 brd 00:00:00:00:00:00\n2: enp3s0: <BROADCAST,MULTICAST,UP,LOWER_UP> mtu 1500 qdisc fq_codel state UP mode DEFAULT group default qlen 1000\\    link/ether 11:22:33:44:55:66 brd ff:ff:ff:ff:ff:ff\n3: wlp2s0: <BROADCAST,MULTICAST> mtu 1500 qdisc noop state DOWN mode DEFAULT group default qlen 1000\\    link/ether aa:bb:cc:dd:ee:ff brd ff:ff:ff:ff:ff:ff\n4: docker0: <NO-CARRIER,BROADCAST,MULTICAST,UP> mtu 1500 qdisc noqueue state DOWN mode DEFAULT group default\\    link/ether 02:42:00:00:00:01 brd ff:ff:ff:ff:ff:ff\n\n5: mon0: <BROADCAST> mtu 1500\n";

const ADDRESSES: &str = "2: enp3s0: <BROADCAST,MULTICAST,UP,LOWER_UP> mtu 1500 qdisc fq_codel state UP group default qlen 1000\n    inet 192.168.1.23/24 brd 192.168.1.255 scope global dynamic noprefixroute enp3s0\n       valid_lft 85000sec preferred_lft 85000sec\n    inet 10.0.0.2/8 scope global secondary enp3s0\n";

#[test]
fn names_of_states_kinds_and_modes() {
    assert_eq!(InterfaceState::Up.as_str(), "UP");
    assert_eq!(InterfaceState::Down.as_str(), "DOWN");
    assert_eq!(InterfaceState::Unknown.as_str(), "UNKNOWN");
    assert_eq!(InterfaceType::Wireless.as_str(), "Wireless");
    assert_eq!(InterfaceType::Ethernet.as_str(), "Ethernet");
    assert_eq!(InterfaceType::Loopback.as_str(), "Loopback");
    assert_eq!(InterfaceType::Virtual.as_str(), "Virtual");
    assert_eq!(InterfaceType::Unknown.as_str(), "Unknown");
    assert_eq!(WirelessMode::Managed.as_str(), "Managed");
    assert_eq!(WirelessMode::Monitor.as_str(), "Monitor");
    assert_eq!(WirelessMode::Master.as_str(), "Master");
    assert_eq!(WirelessMode::Adhoc.as_str(), "Ad-Hoc");
    assert_eq!(WirelessMode::Unknown.as_str(), "Unknown");
    assert_eq!(NetworkError::ListingFailed.message(), "Failed to get network interfaces");
}

#[test]
fn the_state_follows_the_marker() {
    assert_eq!(state_of("2: eth0: <UP> mtu 1500 state UP mode DEFAULT"), InterfaceState::Up);
    assert_eq!(state_of("2: eth0: <UP> mtu 1500 state DOWN mode DEFAULT"), InterfaceState::Down);
    assert_eq!(state_of("2: eth0: <UP> mtu 1500 state UNKNOWN mode DEFAULT"), InterfaceState::Unknown);
    assert_eq!(state_of("2: eth0: <UP> mtu 1500"), InterfaceState::Unknown);
    assert_eq!(state_of("2: eth0: state up"), InterfaceState::Unknown);
    assert_eq!(state_of("2: eth0: state  UP"), InterfaceState::Unknown);
    assert_eq!(state_of("2: eth0: state DOWN state UP"), InterfaceState::Up);
    assert_eq!(state_of("2: eth0: state UPPER"), InterfaceState::Up);
}

#[test]
fn the_marker_is_looked_for_in_the_whole_line() {
    assert_eq!(state_of("state UP: x"), InterfaceState::Up);
    assert_eq!(state_of("state DOWN"), InterfaceState::Down);
}

#[test]
fn loopback_is_up_and_nothing_is_looked_up() {
    let known = facts(true, Some("00:00:00:00:00:00\n"), Some(ADDRESSES), Some("virtual"));
    for line in ["1: lo: <LOOPBACK,UP,LOWER_UP> mtu 65536 state UNKNOWN", "1: lo: state DOWN", "7 lo", "x lo:::"] {
        let lo = NetworkManager::parse_interface_line(line, &known).unwrap();
        assert_eq!(lo.name, "lo");
        assert_eq!(lo.state, InterfaceState::Up);
        assert_eq!(lo.interface_type, InterfaceType::Loopback);
        assert_eq!(lo.mac_address, None);
        assert_eq!(lo.ip_address, None);
        assert_eq!(lo.driver, None);
        assert_eq!(NetworkManager::lookup_target(line), None);
    }
    assert_eq!(NetworkManager::lookup_target("2: lo0: x"), Some("lo0".to_string()));
    assert_eq!(NetworkManager::lookup_target("2: eth0: x"), Some("eth0".to_string()));
    assert_eq!(NetworkManager::lookup_target("lonely"), None);
}

#[test]
fn a_line_needs_two_words() {
    assert!(NetworkManager::parse_interface_line("", &nothing()).is_none());
    assert!(NetworkManager::parse_interface_line("   ", &nothing()).is_none());
    assert!(NetworkManager::parse_interface_line("2:", &nothing()).is_none());
    assert!(NetworkManager::parse_interface_line("  eth0:  ", &nothing()).is_none());
    assert!(NetworkManager::parse_interface_line("2: eth0:", &nothing()).is_some());
    assert_eq!(NetworkManager::interface_name("2:"), None);
    assert_eq!(NetworkManager::interface_name("2: eth0: <UP>"), Some("eth0".to_string()));
    assert_eq!(NetworkManager::interface_name("\t2:\twlan0@if3:: <UP>"), Some("wlan0@if3".to_string()));
    assert_eq!(NetworkManager::interface_name("2: :"), Some("".to_string()));
    assert_eq!(NetworkManager::interface_name("2: eth0"), Some("eth0".to_string()));
}

#[test]
fn kinds_by_name() {
    for (name, kind) in [
        ("wlan0", InterfaceType::Wireless),
        ("wlp2s0", InterfaceType::Wireless),
        ("wl", InterfaceType::Wireless),
        ("wifi0", InterfaceType::Wireless),
        ("eth0", InterfaceType::Ethernet),
        ("enp3s0", InterfaceType::Ethernet),
        ("en", InterfaceType::Ethernet),
        ("veth12ab", InterfaceType::Virtual),
        ("docker0", InterfaceType::Virtual),
        ("br-1234", InterfaceType::Virtual),
        ("br0", InterfaceType::Unknown),
        ("virbr0", InterfaceType::Unknown),
        ("tun0", InterfaceType::Unknown),
        ("Wlan0", InterfaceType::Unknown),
        ("ETH0", InterfaceType::Unknown),
        ("w", InterfaceType::Unknown),
        ("", InterfaceType::Unknown),
        ("mon0", InterfaceType::Unknown),
    ] {
        assert_eq!(NetworkManager::detect_interface_type(name, false), kind);
        assert_eq!(NetworkManager::detect_interface_type(name, true), InterfaceType::Wireless);
    }
}

#[test]
fn the_hardware_address_is_trimmed() {
    assert_eq!(NetworkManager::get_mac_address("aa:bb:cc:dd:ee:ff\n"), "aa:bb:cc:dd:ee:ff");
    assert_eq!(NetworkManager::get_mac_address("  \n"), "");
}

#[test]
fn the_first_address_is_taken() {
    assert_eq!(NetworkManager::get_ip_address(ADDRESSES), Some("192.168.1.23".to_string()));
    assert_eq!(NetworkManager::get_ip_address("    inet 10.1.2.3 scope host lo\n"), Some("10.1.2.3".to_string()));
    assert_eq!(NetworkManager::get_ip_address("    inet /24\n"), Some("".to_string()));
    assert_eq!(NetworkManager::get_ip_address("x inet 1.2.3.4/5/6\n"), Some("inet".to_string()));
    assert_eq!(NetworkManager::get_ip_address(""), None);
    assert_eq!(NetworkManager::get_ip_address("2: eth0: <UP>\n    inet6 fe80::1/64 scope link\n"), None);
    assert_eq!(NetworkManager::get_ip_address("inet\n"), None);
}

#[test]
fn the_first_line_with_the_marker_decides() {
    assert_eq!(NetworkManager::get_ip_address("inet \ninet 1.2.3.4/8\n"), None);
    assert_eq!(NetworkManager::get_ip_address("no marker\n inet 1.2.3.4/8\n inet 5.6.7.8/8\n"), Some("1.2.3.4".to_string()));
}

#[test]
fn an_interface_with_all_its_facts() {
    let known = facts(false, Some("AA:BB:CC:DD:EE:FF\n"), Some(ADDRESSES), Some("e1000e"));
    let interface = NetworkManager::parse_interface_line("2: enp3s0: <BROADCAST,MULTICAST,UP,LOWER_UP> mtu 1500 state UP mode DEFAULT", &known).unwrap();
    assert_eq!(interface.name, "enp3s0");
    assert_eq!(interface.mac_address, Some("AA:BB:CC:DD:EE:FF".to_string()));
    assert_eq!(interface.ip_address, Some("192.168.1.23".to_string()));
    assert_eq!(interface.state, InterfaceState::Up);
    assert_eq!(interface.interface_type, InterfaceType::Ethernet);
    assert_eq!(interface.driver, Some("e1000e".to_string()));
    let copy: NetworkInterface = interface.clone();
    assert_eq!(copy.name, "enp3s0");
    assert_eq!(copy.driver, Some("e1000e".to_string()));
}

#[test]
fn an_interface_of_which_nothing_is_known() {
    let interface = NetworkManager::parse_interface_line("9: tun0: <POINTOPOINT> mtu 1500", &nothing()).unwrap();
    assert_eq!(interface.name, "tun0");
    assert_eq!(interface.mac_address, None);
    assert_eq!(interface.ip_address, None);
    assert_eq!(interface.state, InterfaceState::Unknown);
    assert_eq!(interface.interface_type, InterfaceType::Unknown);
    assert_eq!(interface.driver, None);
}

#[test]
fn the_capability_mark_decides_before_the_name() {
    let interface = NetworkManager::parse_interface_line("3: eth7: state UP", &facts(true, None, None, None)).unwrap();
    assert_eq!(interface.interface_type, InterfaceType::Wireless);
}

#[test]
fn the_names_to_look_up() {
    assert_eq!(NetworkManager::lookup_targets(LINKS), vec!["enp3s0", "wlp2s0", "docker0", "mon0"]);
    assert_eq!(NetworkManager::lookup_targets(""), Vec::<String>::new());
    assert_eq!(NetworkManager::lookup_targets("1: lo: x\n"), Vec::<String>::new());
}

#[test]
fn the_interfaces_of_a_listing() {
    let devices = vec![
        Device { name: "wlp2s0".to_string(), facts: facts(true, Some("aa:bb:cc:dd:ee:ff\n"), Some(""), Some("iwlwifi")) },
        Device { name: "enp3s0".to_string(), facts: facts(false, Some("11:22:33:44:55:66\n"), Some(ADDRESSES), Some("r8169")) },
        Device { name: "enp3s0".to_string(), facts: facts(true, None, None, None) },
        Device { name: "lo".to_string(), facts: facts(true, Some("00:00:00:00:00:00"), None, None) },
        Device { name: "mon0".to_string(), facts: facts(true, None, None, None) },
    ];
    let interfaces = NetworkManager::get_interfaces(&listing(true, LINKS), &devices).unwrap();
    let names: Vec<&str> = interfaces.iter().map(|i| i.name.as_str()).collect();
    assert_eq!(names, vec!["lo", "enp3s0", "wlp2s0", "docker0", "mon0"]);
    assert_eq!(interfaces[0].interface_type, InterfaceType::Loopback);
    assert_eq!(interfaces[0].state, InterfaceState::Up);
    assert_eq!(interfaces[0].mac_address, None);
    assert_eq!(interfaces[1].interface_type, InterfaceType::Ethernet);
    assert_eq!(interfaces[1].state, InterfaceState::Up);
    assert_eq!(interfaces[1].mac_address, Some("11:22:33:44:55:66".to_string()));
    assert_eq!(interfaces[1].ip_address, Some("192.168.1.23".to_string()));
    assert_eq!(interfaces[1].driver, Some("r8169".to_string()));
    assert_eq!(interfaces[2].interface_type, InterfaceType::Wireless);
    assert_eq!(interfaces[2].state, InterfaceState::Down);
    assert_eq!(interfaces[2].ip_address, None);
    assert_eq!(interfaces[2].driver, Some("iwlwifi".to_string()));
    assert_eq!(interfaces[3].interface_type, InterfaceType::Virtual);
    assert_eq!(interfaces[3].mac_address, None);
    assert_eq!(interfaces[4].interface_type, InterfaceType::Wireless);
    assert_eq!(interfaces[4].state, InterfaceState::Unknown);
}

#[test]
fn only_the_wireless_interfaces() {
    let devices = vec![
        Device { name: "mon0".to_string(), facts: facts(true, None, None, None) },
    ];
    let interfaces = NetworkManager::get_wireless_interfaces(&listing(true, LINKS), &devices).unwrap();
    let names: Vec<&str> = interfaces.iter().map(|i| i.name.as_str()).collect();
    assert_eq!(names, vec!["wlp2s0", "mon0"]);
    let none = NetworkManager::get_wireless_interfaces(&listing(true, "1: lo: x\n2: eth0: y\n"), &Vec::new()).unwrap();
    assert!(none.is_empty());
}

#[test]
fn a_failed_listing_is_an_error() {
    assert_eq!(NetworkManager::get_interfaces(&listing(false, LINKS), &Vec::new()).unwrap_err(), NetworkError::ListingFailed);
    assert_eq!(NetworkManager::get_wireless_interfaces(&listing(false, ""), &Vec::new()).unwrap_err(), NetworkError::ListingFailed);
    assert!(NetworkManager::get_interfaces(&listing(true, ""), &Vec::new()).unwrap().is_empty());
}

#[test]
fn the_mode_of_a_wireless_device() {
    assert_eq!(NetworkManager::get_wireless_mode("Interface wlan0\n\tifindex 3\n\ttype managed\n\twiphy 0\n"), WirelessMode::Managed);
    assert_eq!(NetworkManager::get_wireless_mode("Interface wlan0\n\ttype monitor\n"), WirelessMode::Monitor);
    assert_eq!(NetworkManager::get_wireless_mode("Interface wlan0\n\ttype AP\n"), WirelessMode::Master);
    assert_eq!(NetworkManager::get_wireless_mode("type master"), WirelessMode::Master);
    assert_eq!(NetworkManager::get_wireless_mode("Interface wlan0\n\ttype IBSS\n"), WirelessMode::Adhoc);
    assert_eq!(NetworkManager::get_wireless_mode("type ad-hoc"), WirelessMode::Adhoc);
    assert_eq!(NetworkManager::get_wireless_mode("Interface wlan0\n\ttype mesh point\n"), WirelessMode::Unknown);
    assert_eq!(NetworkManager::get_wireless_mode(""), WirelessMode::Unknown);
}

#[test]
fn the_mode_words_have_an_order() {
    assert_eq!(NetworkManager::get_wireless_mode("type managed\ntype monitor\n"), WirelessMode::Monitor);
    assert_eq!(NetworkManager::get_wireless_mode("AP managed"), WirelessMode::Managed);
    assert_eq!(NetworkManager::get_wireless_mode("IBSS master"), WirelessMode::Master);
    assert_eq!(NetworkManager::get_wireless_mode("ad-hoc AP"), WirelessMode::Master);
    assert_eq!(NetworkManager::get_wireless_mode("Monitor Managed ap ibss"), WirelessMode::Unknown);
}

#[test]
fn a_local_address_from_given_octets() {
    assert_eq!(local_mac([0x00, 0x00, 0x00, 0x00, 0x00, 0x00]), "02:00:00:00:00:00");
    assert_eq!(local_mac([0xff, 0xff, 0xff, 0xff, 0xff, 0xff]), "fe:ff:ff:ff:ff:ff");
    assert_eq!(local_mac([0xab, 0x01, 0x9a, 0xbc, 0xde, 0xf0]), "aa:01:9a:bc:de:f0");
    assert_eq!(local_mac([0x01, 0x23, 0x45, 0x67, 0x89, 0x0a]), "02:23:45:67:89:0a");
    assert_eq!(local_mac([0x03, 0x10, 0x0f, 0xa0, 0x0b, 0xc0]), "02:10:0f:a0:0b:c0");
}

#[test]
fn a_random_address_is_local_and_well_formed() {
    let mut seen: Vec<String> = Vec::new();
    for _ in 0..200 {
        let mac = NetworkManager::generate_random_mac();
        let parts: Vec<&str> = mac.split(':').collect();
        assert_eq!(mac.len(), 17);
        assert_eq!(parts.len(), 6);
        for part in &parts {
            assert_eq!(part.len(), 2);
            assert!(part.chars().all(|c| c.is_ascii_digit() || ('a'..='f').contains(&c)));
        }
        let first = u8::from_str_radix(parts[0], 16).unwrap();
        assert_eq!(first & 0x03, 0x02);
        seen.push(mac);
    }
    seen.sort();
    seen.dedup();
    assert!(seen.len() > 1);
}
