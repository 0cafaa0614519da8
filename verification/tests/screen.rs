use sozin::command::{CommandOutput, Operation};
use sozin::network::{InterfaceState, InterfaceType, NetworkInterface, WirelessMode};
use sozin::scanner::{Timestamp, WifiNetworkBuilder};
use sozin::ui::{App, InputMode, Key, Outcome, Request};

fn interface(name: &str) -> NetworkInterface {
    NetworkInterface {
        name: name.to_string(),
        mac_address: None,
        ip_address: None,
        state: InterfaceState::Up,
        interface_type: InterfaceType::Ethernet,
        driver: None,
    }
}

fn three() -> Vec<NetworkInterface> {
    vec![interface("eth0"), interface("eth1"), interface("eth2")]
}

#[test]
fn a_command_that_succeeded_passes_the_check() {
    let output = CommandOutput { success: true, stdout: String::new(), stderr: "warning\n".to_string() };
    assert!(output.check("Failed to bring up interface").is_ok());
}

#[test]
fn a_command_that_failed_is_reported_with_its_complaint() {
    let output = CommandOutput { success: false, stdout: "ignored".to_string(), stderr: "RTNETLINK answers: Operation not permitted\n".to_string() };
    let error = output.check("Failed to bring up interface").unwrap_err();
    assert_eq!(error.message, "Failed to bring up interface: RTNETLINK answers: Operation not permitted\n");
    let silent = CommandOutput { success: false, stdout: String::new(), stderr: String::new() };
    assert_eq!(silent.check("Failed to set channel").unwrap_err().message, "Failed to set channel: ");
}

#[test]
fn the_screen_at_the_start() {
    let app = App::default();
    assert!(app.running);
    assert_eq!(app.current_tab, 0);
    assert!(app.interfaces.is_empty());
    assert_eq!(app.interface_state, None);
    assert!(app.networks.is_empty());
    assert_eq!(app.network_state, None);
    assert_eq!(app.selected_interface, None);
    assert_eq!(app.status_message, "");
    assert!(!app.show_help);
    assert_eq!(app.input_mode, InputMode::Normal);
    assert_eq!(app.input_buffer, "");
    assert!(app.selected_interface().is_none());
}

#[test]
fn a_new_screen_takes_the_listing() {
    let app = App::new(Ok(three()));
    assert_eq!(app.interfaces.len(), 3);
    assert_eq!(app.interface_state, Some(0));
    assert_eq!(app.selected_interface().unwrap().name, "eth0");
    assert_eq!(app.status_message, "");
    let app = App::new(Ok(Vec::new()));
    assert_eq!(app.interface_state, None);
    let app = App::new(Err("Failed to get network interfaces".to_string()));
    assert!(app.interfaces.is_empty());
    assert_eq!(app.interface_state, None);
    assert_eq!(app.status_message, "Error: Failed to get network interfaces");
}

#[test]
fn a_refresh_keeps_the_cursor() {
    let mut app = App::new(Ok(three()));
    app.next_interface();
    app.next_interface();
    assert_eq!(app.interface_state, Some(2));
    app.refresh_interfaces(Ok(vec![interface("eth0")]));
    assert_eq!(app.interface_state, Some(2));
    assert!(app.selected_interface().is_none());
    app.refresh_interfaces(Err("no listing".to_string()));
    assert_eq!(app.interfaces.len(), 1);
    assert_eq!(app.status_message, "Error: no listing");
    app.next_interface();
    assert_eq!(app.interface_state, Some(0));
}

#[test]
fn the_interface_cursor_goes_round() {
    let mut app = App::new(Ok(three()));
    app.next_interface();
    assert_eq!(app.interface_state, Some(1));
    app.next_interface();
    assert_eq!(app.interface_state, Some(2));
    app.next_interface();
    assert_eq!(app.interface_state, Some(0));
    app.previous_interface();
    assert_eq!(app.interface_state, Some(2));
    app.previous_interface();
    assert_eq!(app.interface_state, Some(1));
    app.interface_state = None;
    app.previous_interface();
    assert_eq!(app.interface_state, Some(0));
    app.interface_state = None;
    app.next_interface();
    assert_eq!(app.interface_state, Some(0));
}

#[test]
fn a_cursor_in_an_empty_list_stays() {
    let mut app = App::default();
    app.next_interface();
    app.previous_interface();
    app.next_network();
    app.previous_network();
    assert_eq!(app.interface_state, None);
    assert_eq!(app.network_state, None);
    app.network_state = Some(4);
    app.next_network();
    assert_eq!(app.network_state, Some(4));
}

#[test]
fn the_network_cursor_goes_round() {
    let mut app = App::default();
    for name in ["aa", "bb"] {
        app.networks.push(WifiNetworkBuilder::new(name.to_string()).build_at(Timestamp { secs: 0, nanos: 0 }));
    }
    app.next_network();
    assert_eq!(app.network_state, Some(0));
    app.next_network();
    assert_eq!(app.network_state, Some(1));
    app.next_network();
    assert_eq!(app.network_state, Some(0));
    app.previous_network();
    assert_eq!(app.network_state, Some(1));
    app.network_state = Some(9);
    app.next_network();
    assert_eq!(app.network_state, Some(0));
    app.network_state = Some(9);
    app.previous_network();
    assert_eq!(app.network_state, Some(8));
}

#[test]
fn the_tabs_go_round() {
    let mut app = App::default();
    app.next_tab();
    assert_eq!(app.current_tab, 1);
    app.next_tab();
    assert_eq!(app.current_tab, 2);
    app.next_tab();
    assert_eq!(app.current_tab, 0);
    app.previous_tab();
    assert_eq!(app.current_tab, 2);
    app.previous_tab();
    assert_eq!(app.current_tab, 1);
    app.previous_tab();
    assert_eq!(app.current_tab, 0);
    app.current_tab = usize::MAX;
    app.next_tab();
    assert_eq!(app.current_tab, (usize::MAX % 3 + 1) % 3);
}

fn wireless(name: &str) -> NetworkInterface {
    let mut interface = interface(name);
    interface.interface_type = InterfaceType::Wireless;
    interface
}

fn network(bssid: &str) -> sozin::scanner::WifiNetwork {
    WifiNetworkBuilder::new(bssid.to_string()).build_at(Timestamp { secs: 0, nanos: 0 })
}

fn screen() -> App {
    App::new(Ok(vec![wireless("wlan0"), interface("eth0")]))
}

fn typed(app: &mut App, text: &str) {
    for c in text.chars() {
        assert!(app.press(Key::Char(c)).is_none());
    }
}

#[test]
fn q_leaves_the_screen() {
    let mut app = screen();
    assert!(matches!(app.press(Key::Char('q')), Some(Request::Quit)));
    assert!(!app.running);
}

#[test]
fn the_help_is_shown_and_hidden() {
    let mut app = screen();
    assert!(app.press(Key::Char('?')).is_none());
    assert!(app.show_help);
    assert!(app.press(Key::F(1)).is_none());
    assert!(!app.show_help);
    assert!(app.press(Key::F(2)).is_none());
    assert!(!app.show_help);
}

#[test]
fn keys_that_mean_nothing_change_nothing() {
    let mut app = screen();
    for key in [Key::Other, Key::Enter, Key::Esc, Key::Backspace, Key::Char('x'), Key::Char('Q'), Key::F(5)] {
        assert!(app.press(key).is_none());
    }
    assert!(app.running);
    assert_eq!(app.current_tab, 0);
    assert_eq!(app.interface_state, Some(0));
    assert_eq!(app.status_message, "");
    assert_eq!(app.input_mode, InputMode::Normal);
    assert_eq!(app.input_buffer, "");
}

#[test]
fn the_tab_keys_change_the_tab() {
    let mut app = screen();
    app.press(Key::Tab);
    assert_eq!(app.current_tab, 1);
    app.press(Key::Tab);
    app.press(Key::Tab);
    assert_eq!(app.current_tab, 0);
    app.press(Key::BackTab);
    assert_eq!(app.current_tab, 2);
}

#[test]
fn the_cursor_keys_move_the_cursor_of_the_tab() {
    let mut app = screen();
    app.networks = vec![network("aa"), network("bb"), network("cc")];
    app.press(Key::Down);
    assert_eq!(app.interface_state, Some(1));
    app.press(Key::Char('j'));
    assert_eq!(app.interface_state, Some(0));
    app.press(Key::Up);
    assert_eq!(app.interface_state, Some(1));
    app.press(Key::Char('k'));
    assert_eq!(app.interface_state, Some(0));
    assert_eq!(app.network_state, None);
    app.press(Key::Tab);
    app.press(Key::Down);
    assert_eq!(app.network_state, Some(0));
    app.press(Key::Up);
    assert_eq!(app.network_state, Some(2));
    assert_eq!(app.interface_state, Some(0));
    app.press(Key::Tab);
    app.press(Key::Down);
    app.press(Key::Up);
    assert_eq!(app.network_state, Some(2));
    assert_eq!(app.interface_state, Some(0));
}

#[test]
fn r_lists_the_interfaces_and_says_so() {
    let mut app = screen();
    let request = app.press(Key::Char('r')).unwrap();
    assert!(matches!(request, Request::ListInterfaces { announce: true, delay_secs: 0 }));
    assert!(app.finish(request, Outcome::Listed(Ok(three()))).is_none());
    assert_eq!(app.interfaces.len(), 3);
    assert_eq!(app.status_message, "Interfaces refreshed");
    let request = app.press(Key::Char('r')).unwrap();
    assert!(app.finish(request, Outcome::Listed(Err("no".to_string()))).is_none());
    assert_eq!(app.interfaces.len(), 3);
    assert_eq!(app.status_message, "Interfaces refreshed");
}

#[test]
fn m_toggles_monitor_mode_of_a_wireless_interface() {
    let mut app = screen();
    let request = app.press(Key::Char('m')).unwrap();
    assert!(matches!(&request, Request::ReadMode { interface } if interface == "wlan0"));
    assert_eq!(app.status_message, "");
    let request = app.finish(request, Outcome::Mode(WirelessMode::Managed)).unwrap();
    assert_eq!(app.status_message, "Toggling monitor mode on wlan0...");
    assert!(matches!(&request, Request::SetMonitor { interface, enable: true } if interface == "wlan0"));
    let request = app.finish(request, Outcome::Done(Ok(()))).unwrap();
    assert_eq!(app.status_message, "Monitor mode enabled on wlan0");
    assert!(matches!(request, Request::ListInterfaces { announce: false, delay_secs: 0 }));
    assert!(app.finish(request, Outcome::Listed(Ok(three()))).is_none());
    assert_eq!(app.status_message, "Monitor mode enabled on wlan0");
    assert_eq!(app.interfaces.len(), 3);
}

#[test]
fn m_leaves_monitor_mode_where_it_is_on() {
    let mut app = screen();
    let request = app.press(Key::Char('m')).unwrap();
    let request = app.finish(request, Outcome::Mode(WirelessMode::Monitor)).unwrap();
    assert!(matches!(&request, Request::SetMonitor { interface, enable: false } if interface == "wlan0"));
    let request = app.finish(request, Outcome::Done(Ok(()))).unwrap();
    assert_eq!(app.status_message, "Monitor mode disabled on wlan0");
    assert!(app.finish(request, Outcome::Listed(Err("gone".to_string()))).is_none());
    assert_eq!(app.status_message, "Error: gone");
    for mode in [WirelessMode::Unknown, WirelessMode::Master, WirelessMode::Adhoc] {
        let request = app.press(Key::Char('m')).unwrap();
        let request = app.finish(request, Outcome::Mode(mode)).unwrap();
        assert!(matches!(request, Request::SetMonitor { enable: true, .. }));
    }
}

#[test]
fn a_command_that_failed_is_shown() {
    let mut app = screen();
    let request = app.press(Key::Char('m')).unwrap();
    let request = app.finish(request, Outcome::Mode(WirelessMode::Managed)).unwrap();
    assert!(app.finish(request, Outcome::Done(Err("Failed to set monitor mode: busy".to_string()))).is_none());
    assert_eq!(app.status_message, "Error: Failed to set monitor mode: busy");
}

#[test]
fn m_and_s_want_a_wireless_interface() {
    let mut app = screen();
    app.press(Key::Down);
    assert!(app.press(Key::Char('m')).is_none());
    assert_eq!(app.status_message, "Not a wireless interface");
    assert!(app.press(Key::Char('s')).is_none());
    assert_eq!(app.status_message, "Select a wireless interface first");
}

#[test]
fn keys_for_an_interface_want_one_marked() {
    let mut app = App::default();
    for c in ['m', 'u', 'd', 's', 'M', 'R'] {
        assert!(app.press(Key::Char(c)).is_none());
    }
    assert_eq!(app.status_message, "");
    assert_eq!(app.input_mode, InputMode::Normal);
    let mut app = screen();
    app.interface_state = Some(7);
    for c in ['m', 'u', 'd', 's', 'M', 'R'] {
        assert!(app.press(Key::Char(c)).is_none());
    }
    assert_eq!(app.status_message, "");
}

#[test]
fn u_and_d_bring_the_interface_up_and_down() {
    let mut app = screen();
    app.press(Key::Down);
    let request = app.press(Key::Char('u')).unwrap();
    assert!(matches!(&request, Request::BringUp { interface } if interface == "eth0"));
    let request = app.finish(request, Outcome::Done(Ok(()))).unwrap();
    assert_eq!(app.status_message, "eth0 is now UP");
    assert!(matches!(request, Request::ListInterfaces { announce: false, delay_secs: 0 }));
    let request = app.press(Key::Char('d')).unwrap();
    assert!(matches!(&request, Request::BringDown { interface } if interface == "eth0"));
    assert!(app.finish(request, Outcome::Done(Err("Failed to bring down interface: no".to_string()))).is_none());
    assert_eq!(app.status_message, "Error: Failed to bring down interface: no");
    let request = app.press(Key::Char('d')).unwrap();
    assert!(app.finish(request, Outcome::Done(Ok(()))).is_some());
    assert_eq!(app.status_message, "eth0 is now DOWN");
}

#[test]
fn s_scans_and_shows_the_networks() {
    let mut app = screen();
    app.network_state = Some(5);
    let request = app.press(Key::Char('s')).unwrap();
    assert!(matches!(&request, Request::Scan { interface } if interface == "wlan0"));
    assert_eq!(app.status_message, "Scanning on wlan0...");
    let found: Vec<_> = (0..12).map(|i| network(&format!("{:02x}", i))).collect();
    assert!(app.finish(request, Outcome::Scanned(Ok(found))).is_none());
    assert_eq!(app.networks.len(), 12);
    assert_eq!(app.network_state, Some(0));
    assert_eq!(app.status_message, "Found 12 networks");
    assert_eq!(app.current_tab, 1);
}

#[test]
fn a_scan_without_networks_keeps_the_cursor() {
    let mut app = screen();
    app.network_state = Some(5);
    let request = app.press(Key::Char('s')).unwrap();
    assert!(app.finish(request, Outcome::Scanned(Ok(Vec::new()))).is_none());
    assert_eq!(app.network_state, Some(5));
    assert_eq!(app.status_message, "Found 0 networks");
    assert_eq!(app.current_tab, 1);
    app.current_tab = 0;
    let request = app.press(Key::Char('s')).unwrap();
    assert!(app.finish(request, Outcome::Scanned(Err("Scan failed: busy".to_string()))).is_none());
    assert_eq!(app.status_message, "Scan error: Scan failed: busy");
    assert_eq!(app.current_tab, 0);
}

#[test]
fn n_restarts_the_network_manager() {
    let mut app = App::default();
    let request = app.press(Key::Char('n')).unwrap();
    assert!(matches!(request, Request::RestartNetworkManager));
    assert_eq!(app.status_message, "Restarting NetworkManager...");
    let request = app.finish(request, Outcome::Done(Ok(()))).unwrap();
    assert_eq!(app.status_message, "NetworkManager restarted");
    assert!(matches!(request, Request::ListInterfaces { announce: false, delay_secs: 1 }));
    let request = app.press(Key::Char('n')).unwrap();
    assert!(app.finish(request, Outcome::Done(Err("Failed to restart NetworkManager: denied".to_string()))).is_none());
    assert_eq!(app.status_message, "Error: Failed to restart NetworkManager: denied");
}

#[test]
fn capital_m_spoofs_a_local_address() {
    let mut app = screen();
    let request = app.press(Key::Char('M')).unwrap();
    let address = match &request {
        Request::SpoofMac { interface, address } => {
            assert_eq!(interface, "wlan0");
            address.clone()
        },
        other => panic!("{:?}", other),
    };
    assert_eq!(address.len(), 17);
    assert_eq!(u8::from_str_radix(&address[..2], 16).unwrap() & 3, 2);
    assert_eq!(app.status_message, format!("Spoofing MAC on wlan0 to {}...", address));
    let request = app.finish(request, Outcome::Done(Ok(()))).unwrap();
    assert_eq!(app.status_message, format!("MAC changed to {}", address));
    assert!(matches!(request, Request::ListInterfaces { announce: false, delay_secs: 0 }));
}

#[test]
fn capital_r_renames_the_interface() {
    let mut app = screen();
    assert!(app.press(Key::Char('R')).is_none());
    assert_eq!(app.input_mode, InputMode::Rename);
    assert_eq!(app.input_buffer, "wlan0");
    assert_eq!(app.status_message, "Enter new name for wlan0 (Press Enter to confirm)");
    assert!(app.press(Key::Backspace).is_none());
    typed(&mut app, "9q");
    assert_eq!(app.input_buffer, "wlan9q");
    assert!(app.running);
    assert!(app.press(Key::Backspace).is_none());
    assert!(app.press(Key::Tab).is_none());
    assert!(app.press(Key::Down).is_none());
    assert_eq!(app.current_tab, 0);
    assert_eq!(app.interface_state, Some(0));
    let request = app.press(Key::Enter).unwrap();
    assert!(matches!(&request, Request::Rename { interface, name } if interface == "wlan0" && name == "wlan9"));
    assert_eq!(app.input_mode, InputMode::Normal);
    assert_eq!(app.input_buffer, "");
    let request = app.finish(request, Outcome::Done(Ok(()))).unwrap();
    assert_eq!(app.status_message, "Renamed wlan0 to wlan9");
    assert!(matches!(request, Request::ListInterfaces { announce: false, delay_secs: 0 }));
}

#[test]
fn a_name_that_is_empty_or_the_same_is_not_given() {
    let mut app = screen();
    app.press(Key::Char('R'));
    assert!(app.press(Key::Enter).is_none());
    assert_eq!(app.input_mode, InputMode::Normal);
    assert_eq!(app.input_buffer, "");
    app.press(Key::Char('R'));
    for _ in 0..8 {
        app.press(Key::Backspace);
    }
    assert_eq!(app.input_buffer, "");
    assert!(app.press(Key::Enter).is_none());
    assert_eq!(app.input_mode, InputMode::Normal);
    app.press(Key::Char('R'));
    typed(&mut app, "x");
    assert!(app.press(Key::Esc).is_none());
    assert_eq!(app.input_mode, InputMode::Normal);
    assert_eq!(app.input_buffer, "");
}

#[test]
fn enter_renames_only_while_renaming() {
    let mut app = screen();
    app.input_mode = InputMode::MacInput;
    typed(&mut app, "aa:bb");
    assert_eq!(app.input_buffer, "aa:bb");
    assert!(app.press(Key::Enter).is_none());
    assert_eq!(app.input_mode, InputMode::Normal);
    assert_eq!(app.input_buffer, "");
    app.input_mode = InputMode::ChannelInput;
    typed(&mut app, "6");
    assert!(app.press(Key::Enter).is_none());
    assert_eq!(app.input_mode, InputMode::Normal);
}

#[test]
fn an_outcome_of_another_kind_changes_nothing() {
    let mut app = screen();
    let request = app.press(Key::Char('u')).unwrap();
    assert!(app.finish(request, Outcome::Mode(WirelessMode::Monitor)).is_none());
    assert!(app.finish(Request::Quit, Outcome::Done(Ok(()))).is_none());
    assert!(app.finish(Request::RestartNetworkManager, Outcome::Listed(Ok(Vec::new()))).is_none());
    assert_eq!(app.status_message, "");
    assert_eq!(app.interfaces.len(), 2);
}

fn planned(operation: Operation) -> Vec<(String, Vec<String>, Option<String>)> {
    operation
        .commands()
        .into_iter()
        .map(|line| (line.program, line.args, line.failure))
        .collect()
}

fn plain(program: &str, args: &[&str]) -> (String, Vec<String>, Option<String>) {
    (program.to_string(), args.iter().map(|a| a.to_string()).collect(), None)
}

fn checked(program: &str, args: &[&str], failure: &str) -> (String, Vec<String>, Option<String>) {
    (program.to_string(), args.iter().map(|a| a.to_string()).collect(), Some(failure.to_string()))
}

#[test]
fn work_that_only_reads() {
    assert_eq!(planned(Operation::ListLinks), vec![plain("ip", &["-o", "link", "show"])]);
    assert_eq!(
        planned(Operation::ListAddresses { interface: "eth0".to_string() }),
        vec![plain("ip", &["-4", "addr", "show", "eth0"])]
    );
    assert_eq!(
        planned(Operation::ReadInfo { interface: "wlan0".to_string() }),
        vec![plain("iw", &["dev", "wlan0", "info"])]
    );
    assert_eq!(
        planned(Operation::Scan { interface: "wlan0".to_string() }),
        vec![plain("iw", &["dev", "wlan0", "scan"])]
    );
}

#[test]
fn work_on_the_mode_of_an_interface() {
    assert_eq!(
        planned(Operation::EnableMonitor { interface: "wlan0".to_string() }),
        vec![
            plain("ip", &["link", "set", "wlan0", "down"]),
            checked("iw", &["dev", "wlan0", "set", "type", "monitor"], "Failed to set monitor mode"),
            plain("ip", &["link", "set", "wlan0", "up"]),
        ]
    );
    assert_eq!(
        planned(Operation::DisableMonitor { interface: "wlan0".to_string() }),
        vec![
            plain("ip", &["link", "set", "wlan0", "down"]),
            checked("iw", &["dev", "wlan0", "set", "type", "managed"], "Failed to set managed mode"),
            plain("ip", &["link", "set", "wlan0", "up"]),
        ]
    );
}

#[test]
fn work_that_changes_an_interface() {
    assert_eq!(
        planned(Operation::BringUp { interface: "eth0".to_string() }),
        vec![checked("ip", &["link", "set", "eth0", "up"], "Failed to bring up interface")]
    );
    assert_eq!(
        planned(Operation::BringDown { interface: "eth0".to_string() }),
        vec![checked("ip", &["link", "set", "eth0", "down"], "Failed to bring down interface")]
    );
    assert_eq!(
        planned(Operation::Rename { interface: "eth0".to_string(), name: "lan0".to_string() }),
        vec![
            plain("ip", &["link", "set", "eth0", "down"]),
            checked("ip", &["link", "set", "eth0", "name", "lan0"], "Failed to rename interface"),
            plain("ip", &["link", "set", "lan0", "up"]),
        ]
    );
    assert_eq!(
        planned(Operation::SpoofMac { interface: "eth0".to_string(), address: "02:00:00:00:00:01".to_string() }),
        vec![
            plain("ip", &["link", "set", "eth0", "down"]),
            checked("ip", &["link", "set", "eth0", "address", "02:00:00:00:00:01"], "Failed to change MAC address"),
            plain("ip", &["link", "set", "eth0", "up"]),
        ]
    );
    assert_eq!(
        planned(Operation::SetChannel { interface: "wlan0".to_string(), channel: 11 }),
        vec![checked("iw", &["dev", "wlan0", "set", "channel", "11"], "Failed to set channel")]
    );
    assert_eq!(
        planned(Operation::SetChannel { interface: "wlan0".to_string(), channel: u32::MAX }),
        vec![checked("iw", &["dev", "wlan0", "set", "channel", "4294967295"], "Failed to set channel")]
    );
    assert_eq!(
        planned(Operation::RestartNetworkManager),
        vec![checked("systemctl", &["restart", "NetworkManager"], "Failed to restart NetworkManager")]
    );
}

#[test]
fn only_a_scan_is_bounded_in_time() {
    assert_eq!(Operation::Scan { interface: "wlan0".to_string() }.timeout_secs(), Some(10));
    assert_eq!(Operation::ListLinks.timeout_secs(), None);
    assert_eq!(Operation::RestartNetworkManager.timeout_secs(), None);
    assert_eq!(Operation::BringUp { interface: "wlan0".to_string() }.timeout_secs(), None);
}
