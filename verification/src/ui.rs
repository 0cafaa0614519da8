//! What the interactive screen shows, and what each key does to it.
//!
//! The screen neither draws nor runs anything. A key changes what it shows
//! and may ask for work; the caller does the work and hands back what came
//! of it, which changes the screen again and may ask for more.

use vstd::prelude::*;
use vstd::string::StringExecFns;
use crate::mac::{as_local, mac_text};
use crate::network::{InterfaceType, NetworkInterface, NetworkManager, WirelessMode};
use crate::number::{decimal_digits, decimal_text};
use crate::scanner::WifiNetwork;
use crate::text::{chars_of, same_text, string_of};
use vstd::slice::slice_subrange;

verus! {

/// What the keys that are typed mean at the moment.
#[derive(Debug, Clone, Copy, PartialEq, Eq, Structural)]
pub enum InputMode {
    Normal,
    Rename,
    MacInput,
    ChannelInput,
}

/// A key, as far as the screen tells keys apart.
#[derive(Debug, Clone, Copy, PartialEq, Eq, Structural)]
pub enum Key {
    Char(char),
    F(u8),
    Tab,
    BackTab,
    Down,
    Up,
    Enter,
    Esc,
    Backspace,
    Other,
}

/// Work that the screen asks of the system.
#[derive(Debug)]
pub enum Request {
    /// Leave the screen.
    Quit,
    /// List the interfaces, after a pause of so many seconds. `announce`
    /// says whether the screen is to say that it was refreshed.
    ListInterfaces { announce: bool, delay_secs: u64 },
    /// Find out in which mode the interface operates.
    ReadMode { interface: String },
    /// Put the interface into monitor mode, or back into managed mode.
    SetMonitor { interface: String, enable: bool },
    /// Bring the interface up.
    BringUp { interface: String },
    /// Bring the interface down.
    BringDown { interface: String },
    /// Scan for networks with the interface.
    Scan { interface: String },
    /// Restart the network manager.
    RestartNetworkManager,
    /// Give the interface the hardware address.
    SpoofMac { interface: String, address: String },
    /// Give the interface the name.
    Rename { interface: String, name: String },
}

/// What came of a request.
#[derive(Debug)]
pub enum Outcome {
    /// The interfaces, or why they could not be listed.
    Listed(Result<Vec<NetworkInterface>, String>),
    /// The mode of the interface; unknown where it could not be read.
    Mode(WirelessMode),
    /// A command ended, well or with the complaint given.
    Done(Result<(), String>),
    /// The networks of a scan, or why it failed.
    Scanned(Result<Vec<WifiNetwork>, String>),
}

/// The number of tabs.
pub const TABS: usize = 3;

/// The state of the screen. A list's cursor is the index of the row that
/// is marked, if one is.
#[derive(Debug)]
pub struct App {
    pub running: bool,
    pub current_tab: usize,
    pub interfaces: Vec<NetworkInterface>,
    pub interface_state: Option<usize>,
    pub networks: Vec<WifiNetwork>,
    pub network_state: Option<usize>,
    pub selected_interface: Option<String>,
    pub status_message: String,
    pub show_help: bool,
    pub input_mode: InputMode,
    pub input_buffer: String,
}

/// What the screen shows: the mathematical value of an `App`.
pub struct Screen {
    pub running: bool,
    pub current_tab: usize,
    pub interfaces: Seq<NetworkInterface>,
    pub interface_state: Option<usize>,
    pub networks: Seq<WifiNetwork>,
    pub network_state: Option<usize>,
    pub selected_interface: Option<Seq<char>>,
    pub status_message: Seq<char>,
    pub show_help: bool,
    pub input_mode: InputMode,
    pub input_buffer: Seq<char>,
}

impl View for App {
    type V = Screen;

    open spec fn view(&self) -> Screen {
        Screen {
            running: self.running,
            current_tab: self.current_tab,
            interfaces: self.interfaces@,
            interface_state: self.interface_state,
            networks: self.networks@,
            network_state: self.network_state,
            selected_interface: match self.selected_interface {
                Some(name) => Some(name@),
                None => None,
            },
            status_message: self.status_message@,
            show_help: self.show_help,
            input_mode: self.input_mode,
            input_buffer: self.input_buffer@,
        }
    }
}

/// Work asked of the system: the mathematical value of a `Request`.
pub enum Asked {
    Quit,
    ListInterfaces { announce: bool, delay_secs: u64 },
    ReadMode { interface: Seq<char> },
    SetMonitor { interface: Seq<char>, enable: bool },
    BringUp { interface: Seq<char> },
    BringDown { interface: Seq<char> },
    Scan { interface: Seq<char> },
    RestartNetworkManager,
    SpoofMac { interface: Seq<char>, address: Seq<char> },
    Rename { interface: Seq<char>, name: Seq<char> },
}

impl View for Request {
    type V = Asked;

    open spec fn view(&self) -> Asked {
        match self {
            Request::Quit => Asked::Quit,
            Request::ListInterfaces { announce, delay_secs } => Asked::ListInterfaces {
                announce: *announce,
                delay_secs: *delay_secs,
            },
            Request::ReadMode { interface } => Asked::ReadMode { interface: interface@ },
            Request::SetMonitor { interface, enable } => Asked::SetMonitor {
                interface: interface@,
                enable: *enable,
            },
            Request::BringUp { interface } => Asked::BringUp { interface: interface@ },
            Request::BringDown { interface } => Asked::BringDown { interface: interface@ },
            Request::Scan { interface } => Asked::Scan { interface: interface@ },
            Request::RestartNetworkManager => Asked::RestartNetworkManager,
            Request::SpoofMac { interface, address } => Asked::SpoofMac {
                interface: interface@,
                address: address@,
            },
            Request::Rename { interface, name } => Asked::Rename {
                interface: interface@,
                name: name@,
            },
        }
    }
}

/// What an optional request asks.
pub open spec fn asked(request: Option<Request>) -> Option<Asked> {
    match request {
        Some(r) => Some(r@),
        None => None,
    }
}

/// The screen before anything is known: running, on the first tab, with
/// empty lists and nothing marked.
pub open spec fn blank() -> Screen {
    Screen {
        running: true,
        current_tab: 0,
        interfaces: Seq::empty(),
        interface_state: None,
        networks: Seq::empty(),
        network_state: None,
        selected_interface: None,
        status_message: Seq::empty(),
        show_help: false,
        input_mode: InputMode::Normal,
        input_buffer: Seq::empty(),
    }
}

/// Where a cursor stands after one step down a list of `len` rows: on the
/// next row, on the first one from the last row or from beyond it, and on
/// the first one where it stood nowhere. In an empty list it stays.
pub open spec fn stepped_down(cursor: Option<usize>, len: nat) -> Option<usize> {
    if len == 0 {
        cursor
    } else {
        match cursor {
            Some(i) => if i >= len - 1 {
                Some(0usize)
            } else {
                Some((i + 1) as usize)
            },
            None => Some(0usize),
        }
    }
}

/// Where a cursor stands after one step up a list of `len` rows: on the
/// row before, on the last one from the first row, and on the first one
/// where it stood nowhere. In an empty list it stays.
pub open spec fn stepped_up(cursor: Option<usize>, len: nat) -> Option<usize> {
    if len == 0 {
        cursor
    } else {
        match cursor {
            Some(i) => if i == 0 {
                Some((len - 1) as usize)
            } else {
                Some((i - 1) as usize)
            },
            None => Some(0usize),
        }
    }
}

/// The tab after `tab`, and the first one after the last.
pub open spec fn tab_after(tab: usize) -> usize {
    ((tab % TABS + 1) % TABS as int) as usize
}

/// The tab before `tab`, and the last one before the first.
pub open spec fn tab_before(tab: usize) -> usize {
    if tab == 0 {
        (TABS - 1) as usize
    } else {
        (tab - 1) as usize
    }
}

/// The interface on which the cursor stands.
pub open spec fn marked(s: Screen) -> Option<NetworkInterface> {
    match s.interface_state {
        Some(i) => if i < s.interfaces.len() {
            Some(s.interfaces[i as int])
        } else {
            None
        },
        None => None,
    }
}

/// The screen after a new listing of the interfaces. Where there is none,
/// the reason is shown and the old listing stays. The cursor stays where it
/// is; a cursor that stood nowhere goes to the first row.
pub open spec fn refreshed(s: Screen, listing: Result<Vec<NetworkInterface>, String>) -> Screen {
    match listing {
        Ok(interfaces) => Screen {
            interfaces: interfaces@,
            interface_state: if s.interface_state is None && interfaces@.len() > 0 {
                Some(0usize)
            } else {
                s.interface_state
            },
            ..s
        },
        Err(reason) => Screen { status_message: "Error: "@ + reason@, ..s },
    }
}

/// The screen with the given words in its status line.
pub open spec fn saying(s: Screen, words: Seq<char>) -> Screen {
    Screen { status_message: words, ..s }
}

/// The screen back in normal mode, with nothing typed.
pub open spec fn settled(s: Screen) -> Screen {
    Screen { input_mode: InputMode::Normal, input_buffer: Seq::empty(), ..s }
}

/// The screen after a cursor key: the cursor of the list on the current tab
/// moves one row down or up.
pub open spec fn moved(s: Screen, down: bool) -> Screen {
    if s.current_tab == 0 {
        Screen {
            interface_state: if down {
                stepped_down(s.interface_state, s.interfaces.len())
            } else {
                stepped_up(s.interface_state, s.interfaces.len())
            },
            ..s
        }
    } else if s.current_tab == 1 {
        Screen {
            network_state: if down {
                stepped_down(s.network_state, s.networks.len())
            } else {
                stepped_up(s.network_state, s.networks.len())
            },
            ..s
        }
    } else {
        s
    }
}

/// The screen and the request after the letter `c` in normal mode.
/// `address` is the hardware address that a request to spoof one carries.
pub open spec fn pressed_letter(s: Screen, c: char, address: Seq<char>) -> (Screen, Option<Asked>) {
    if c == 'q' {
        (Screen { running: false, ..s }, Some(Asked::Quit))
    } else if c == '?' {
        (Screen { show_help: !s.show_help, ..s }, None)
    } else if c == 'j' {
        (moved(s, true), None)
    } else if c == 'k' {
        (moved(s, false), None)
    } else if c == 'r' {
        (s, Some(Asked::ListInterfaces { announce: true, delay_secs: 0 }))
    } else if c == 'n' {
        (saying(s, "Restarting NetworkManager..."@), Some(Asked::RestartNetworkManager))
    } else {
        match marked(s) {
            None => (s, None),
            Some(interface) => {
                let name = interface.name@;
                let wireless = interface.interface_type == InterfaceType::Wireless;
                if c == 'm' {
                    if wireless {
                        (s, Some(Asked::ReadMode { interface: name }))
                    } else {
                        (saying(s, "Not a wireless interface"@), None)
                    }
                } else if c == 'u' {
                    (s, Some(Asked::BringUp { interface: name }))
                } else if c == 'd' {
                    (s, Some(Asked::BringDown { interface: name }))
                } else if c == 's' {
                    if wireless {
                        (
                            saying(s, "Scanning on "@ + name + "..."@),
                            Some(Asked::Scan { interface: name }),
                        )
                    } else {
                        (saying(s, "Select a wireless interface first"@), None)
                    }
                } else if c == 'M' {
                    (
                        saying(s, "Spoofing MAC on "@ + name + " to "@ + address + "..."@),
                        Some(Asked::SpoofMac { interface: name, address }),
                    )
                } else if c == 'R' {
                    (
                        Screen {
                            input_mode: InputMode::Rename,
                            input_buffer: name,
                            status_message: "Enter new name for "@ + name
                                + " (Press Enter to confirm)"@,
                            ..s
                        },
                        None,
                    )
                } else {
                    (s, None)
                }
            },
        }
    }
}

/// The screen and the request after a key in normal mode.
pub open spec fn pressed_normal(s: Screen, key: Key, address: Seq<char>) -> (Screen, Option<Asked>) {
    match key {
        Key::Char(c) => pressed_letter(s, c, address),
        Key::F(n) => if n == 1 {
            (Screen { show_help: !s.show_help, ..s }, None)
        } else {
            (s, None)
        },
        Key::Tab => (Screen { current_tab: tab_after(s.current_tab), ..s }, None),
        Key::BackTab => (Screen { current_tab: tab_before(s.current_tab), ..s }, None),
        Key::Down => (moved(s, true), None),
        Key::Up => (moved(s, false), None),
        _ => (s, None),
    }
}

/// The rename that Enter asks for: the marked interface is to take the name
/// typed, where the screen is renaming and the name typed is not empty and
/// not the name that the interface has.
pub open spec fn rename_asked(s: Screen) -> Option<Asked> {
    match marked(s) {
        Some(interface) => if s.input_mode == InputMode::Rename && s.input_buffer.len() > 0
            && s.input_buffer != interface.name@ {
            Some(Asked::Rename { interface: interface.name@, name: s.input_buffer })
        } else {
            None
        },
        None => None,
    }
}

/// The screen and the request after a key while something is typed in.
pub open spec fn pressed_typing(s: Screen, key: Key) -> (Screen, Option<Asked>) {
    match key {
        Key::Enter => (settled(s), rename_asked(s)),
        Key::Esc => (settled(s), None),
        Key::Char(c) => (Screen { input_buffer: s.input_buffer.push(c), ..s }, None),
        Key::Backspace => (
            Screen {
                input_buffer: if s.input_buffer.len() > 0 {
                    s.input_buffer.drop_last()
                } else {
                    s.input_buffer
                },
                ..s
            },
            None,
        ),
        _ => (s, None),
    }
}

/// The screen and the request after a key.
pub open spec fn pressed(s: Screen, key: Key, address: Seq<char>) -> (Screen, Option<Asked>) {
    if s.input_mode == InputMode::Normal {
        pressed_normal(s, key, address)
    } else {
        pressed_typing(s, key)
    }
}

/// The screen and the next request after a command ended. Where it ended
/// well the screen says `success` and the interfaces are listed anew after
/// `delay_secs` seconds; else the screen shows the complaint.
pub open spec fn ended(s: Screen, result: Result<(), String>, success: Seq<char>, delay_secs: u64) -> (
    Screen,
    Option<Asked>,
) {
    match result {
        Ok(_) => (saying(s, success), Some(Asked::ListInterfaces { announce: false, delay_secs })),
        Err(complaint) => (saying(s, "Error: "@ + complaint@), None),
    }
}

/// The screen after a scan: its networks are shown on the networks tab with
/// the cursor on the first, and where it failed the reason is shown.
pub open spec fn scanned(s: Screen, result: Result<Vec<WifiNetwork>, String>) -> Screen {
    match result {
        Ok(networks) => Screen {
            networks: networks@,
            network_state: if networks@.len() > 0 {
                Some(0usize)
            } else {
                s.network_state
            },
            status_message: "Found "@ + decimal_digits(networks@.len()) + " networks"@,
            current_tab: 1,
            ..s
        },
        Err(reason) => saying(s, "Scan error: "@ + reason@),
    }
}

/// The screen and the next request once what was asked has been done.
/// What came of it counts only where it is of the kind that was asked for.
pub open spec fn resolved(s: Screen, request: Asked, outcome: Outcome) -> (Screen, Option<Asked>) {
    match (request, outcome) {
        (Asked::ListInterfaces { announce, delay_secs }, Outcome::Listed(listing)) => (
            if announce {
                saying(refreshed(s, listing), "Interfaces refreshed"@)
            } else {
                refreshed(s, listing)
            },
            None,
        ),
        (Asked::ReadMode { interface }, Outcome::Mode(mode)) => (
            saying(s, "Toggling monitor mode on "@ + interface + "..."@),
            Some(Asked::SetMonitor { interface, enable: mode != WirelessMode::Monitor }),
        ),
        (Asked::SetMonitor { interface, enable }, Outcome::Done(result)) => ended(
            s,
            result,
            if enable {
                "Monitor mode enabled on "@ + interface
            } else {
                "Monitor mode disabled on "@ + interface
            },
            0,
        ),
        (Asked::BringUp { interface }, Outcome::Done(result)) => ended(
            s,
            result,
            interface + " is now UP"@,
            0,
        ),
        (Asked::BringDown { interface }, Outcome::Done(result)) => ended(
            s,
            result,
            interface + " is now DOWN"@,
            0,
        ),
        (Asked::Scan { interface }, Outcome::Scanned(result)) => (scanned(s, result), None),
        (Asked::RestartNetworkManager, Outcome::Done(result)) => ended(
            s,
            result,
            "NetworkManager restarted"@,
            1,
        ),
        (Asked::SpoofMac { interface, address }, Outcome::Done(result)) => ended(
            s,
            result,
            "MAC changed to "@ + address,
            0,
        ),
        (Asked::Rename { interface, name }, Outcome::Done(result)) => ended(
            s,
            result,
            "Renamed "@ + interface + " to "@ + name,
            0,
        ),
        _ => (s, None),
    }
}

/// A cursor that stands in a list stays in it when it steps down, and one
/// step down from the last row leads to the first.
pub proof fn lemma_stepped_down_stays_inside(cursor: Option<usize>, len: nat)
    requires
        0 < len <= usize::MAX,
    ensures
        stepped_down(cursor, len) matches Some(i) && i < len,
        cursor == Some((len - 1) as usize) ==> stepped_down(cursor, len) == Some(0usize),
{
}

/// A cursor that stands in a list stays in it when it steps up, and a step
/// up undoes a step down.
pub proof fn lemma_stepped_up_stays_inside(cursor: Option<usize>, len: nat)
    requires
        0 < len <= usize::MAX,
        cursor matches Some(i) ==> i < len,
    ensures
        stepped_up(cursor, len) matches Some(i) && i < len,
        cursor is Some ==> stepped_up(stepped_down(cursor, len), len) == cursor,
        cursor is Some ==> stepped_down(stepped_up(cursor, len), len) == cursor,
{
}

/// The tabs go round: the one after and the one before are tabs, and of a
/// tab the one before the one after is the tab itself.
pub proof fn lemma_tabs_go_round(tab: usize)
    ensures
        tab_after(tab) < TABS,
        tab < TABS ==> tab_before(tab) < TABS,
        tab < TABS ==> tab_before(tab_after(tab)) == tab && tab_after(tab_before(tab)) == tab,
        tab < usize::MAX ==> tab_after(tab) == (tab + 1) % TABS as int,
{
}

/// The screen is left on `q` in normal mode, and on nothing else.
pub proof fn lemma_only_q_quits(s: Screen, key: Key, address: Seq<char>)
    ensures
        pressed(s, key, address).1 == Some(Asked::Quit) <==> s.input_mode == InputMode::Normal
            && key == Key::Char('q'),
        pressed(s, key, address).0.running == (s.running && pressed(s, key, address).1 != Some(
            Asked::Quit,
        )),
{
}

/// While something is typed in, only Enter asks for anything, and only for
/// a rename; no key moves the interface cursor or changes the tab.
pub proof fn lemma_typing_asks_only_for_a_rename(s: Screen, key: Key, address: Seq<char>)
    requires
        s.input_mode != InputMode::Normal,
    ensures
        pressed(s, key, address).1 matches Some(request) ==> key == Key::Enter
            && request is Rename,
        pressed(s, key, address).0.interfaces == s.interfaces,
        pressed(s, key, address).0.interface_state == s.interface_state,
        pressed(s, key, address).0.current_tab == s.current_tab,
{
}

/// A key leaves a cursor that stands in its list in its list.
pub proof fn lemma_keys_keep_the_cursor_inside(s: Screen, key: Key, address: Seq<char>)
    requires
        s.interfaces.len() <= usize::MAX,
        s.interface_state matches Some(i) ==> i < s.interfaces.len(),
    ensures
        pressed(s, key, address).0.interface_state matches Some(i) ==> i < pressed(
            s,
            key,
            address,
        ).0.interfaces.len(),
{
}

/// The cursor after a step down a list of `len` rows.
fn step_down(cursor: Option<usize>, len: usize) -> (next: Option<usize>)
    ensures
        next == stepped_down(cursor, len as nat),
{
    if len == 0 {
        return cursor;
    }
    match cursor {
        Some(i) => if i >= len - 1 {
            Some(0)
        } else {
            Some(i + 1)
        },
        None => Some(0),
    }
}

/// The cursor after a step up a list of `len` rows.
fn step_up(cursor: Option<usize>, len: usize) -> (next: Option<usize>)
    ensures
        next == stepped_up(cursor, len as nat),
{
    if len == 0 {
        return cursor;
    }
    match cursor {
        Some(i) => if i == 0 {
            Some(len - 1)
        } else {
            Some(i - 1)
        },
        None => Some(0),
    }
}

/// The three texts, one behind the other.
fn sentence(head: &str, middle: &str, tail: &str) -> (words: String)
    ensures
        words@ == head@ + middle@ + tail@,
{
    let mut words = String::from_str(head);
    words.append(middle);
    words.append(tail);
    words
}

impl Default for App {
    fn default() -> (app: Self)
        ensures
            app@ == blank(),
    {
        App {
            running: true,
            current_tab: 0,
            interfaces: Vec::new(),
            interface_state: None,
            networks: Vec::new(),
            network_state: None,
            selected_interface: None,
            status_message: String::new(),
            show_help: false,
            input_mode: InputMode::Normal,
            input_buffer: String::new(),
        }
    }
}

impl App {
    /// The screen at the start, with the interfaces as they were listed.
    pub fn new(listing: Result<Vec<NetworkInterface>, String>) -> (app: Self)
        ensures
            app@ == refreshed(blank(), listing),
    {
        let mut app = App::default();
        app.refresh_interfaces(listing);
        app
    }

    /// Takes in a new listing of the interfaces.
    pub fn refresh_interfaces(&mut self, listing: Result<Vec<NetworkInterface>, String>)
        ensures
            final(self)@ == refreshed(old(self)@, listing),
    {
        match listing {
            Ok(interfaces) => {
                if self.interface_state.is_none() && interfaces.len() > 0 {
                    self.interface_state = Some(0);
                }
                self.interfaces = interfaces;
            },
            Err(reason) => {
                self.status_message = sentence("Error: ", reason.as_str(), "");
                assert(self.status_message@ == "Error: "@ + reason@) by {
                    reveal_strlit("");
                }
            },
        }
    }

    /// The interface on which the cursor stands.
    pub fn selected_interface(&self) -> (interface: Option<&NetworkInterface>)
        ensures
            match interface {
                Some(i) => marked(self@) == Some(*i),
                None => marked(self@) is None,
            },
    {
        match self.interface_state {
            Some(i) => if i < self.interfaces.len() {
                Some(&self.interfaces[i])
            } else {
                None
            },
            None => None,
        }
    }

    /// Moves the cursor one interface down.
    pub fn next_interface(&mut self)
        ensures
            final(self)@ == (Screen {
                interface_state: stepped_down(
                    old(self)@.interface_state,
                    old(self)@.interfaces.len(),
                ),
                ..old(self)@
            }),
    {
        self.interface_state = step_down(self.interface_state, self.interfaces.len());
    }

    /// Moves the cursor one interface up.
    pub fn previous_interface(&mut self)
        ensures
            final(self)@ == (Screen {
                interface_state: stepped_up(
                    old(self)@.interface_state,
                    old(self)@.interfaces.len(),
                ),
                ..old(self)@
            }),
    {
        self.interface_state = step_up(self.interface_state, self.interfaces.len());
    }

    /// Moves the cursor one network down.
    pub fn next_network(&mut self)
        ensures
            final(self)@ == (Screen {
                network_state: stepped_down(old(self)@.network_state, old(self)@.networks.len()),
                ..old(self)@
            }),
    {
        self.network_state = step_down(self.network_state, self.networks.len());
    }

    /// Moves the cursor one network up.
    pub fn previous_network(&mut self)
        ensures
            final(self)@ == (Screen {
                network_state: stepped_up(old(self)@.network_state, old(self)@.networks.len()),
                ..old(self)@
            }),
    {
        self.network_state = step_up(self.network_state, self.networks.len());
    }

    /// Goes to the next tab, and from the last one to the first.
    pub fn next_tab(&mut self)
        ensures
            final(self)@ == (Screen { current_tab: tab_after(old(self)@.current_tab), ..old(self)@ }),
    {
        self.current_tab = (self.current_tab % TABS + 1) % TABS;
    }

    /// Goes to the tab before, and from the first one to the last.
    pub fn previous_tab(&mut self)
        ensures
            final(self)@ == (Screen {
                current_tab: tab_before(old(self)@.current_tab),
                ..old(self)@
            }),
    {
        if self.current_tab == 0 {
            self.current_tab = TABS - 1;
        } else {
            self.current_tab -= 1;
        }
    }

    /// Moves the cursor of the list on the current tab.
    fn move_cursor(&mut self, down: bool)
        ensures
            final(self)@ == moved(old(self)@, down),
    {
        if self.current_tab == 0 {
            if down {
                self.next_interface();
            } else {
                self.previous_interface();
            }
        } else if self.current_tab == 1 {
            if down {
                self.next_network();
            } else {
                self.previous_network();
            }
        }
    }

    /// Takes a letter in normal mode. `address` is the hardware address
    /// that a request to spoof one is to carry.
    fn press_letter(&mut self, c: char, address: String) -> (request: Option<Request>)
        ensures
            (final(self)@, asked(request)) == pressed_letter(old(self)@, c, address@),
    {
        if c == 'q' {
            self.running = false;
            return Some(Request::Quit);
        }
        if c == '?' {
            self.show_help = !self.show_help;
            return None;
        }
        if c == 'j' {
            self.move_cursor(true);
            return None;
        }
        if c == 'k' {
            self.move_cursor(false);
            return None;
        }
        if c == 'r' {
            return Some(Request::ListInterfaces { announce: true, delay_secs: 0 });
        }
        if c == 'n' {
            self.status_message = String::from_str("Restarting NetworkManager...");
            return Some(Request::RestartNetworkManager);
        }
        let (name, wireless) = match self.selected_interface() {
            Some(interface) => (
                interface.name.clone(),
                interface.interface_type == InterfaceType::Wireless,
            ),
            None => {
                return None;
            },
        };
        if c == 'm' {
            if wireless {
                Some(Request::ReadMode { interface: name })
            } else {
                self.status_message = String::from_str("Not a wireless interface");
                None
            }
        } else if c == 'u' {
            Some(Request::BringUp { interface: name })
        } else if c == 'd' {
            Some(Request::BringDown { interface: name })
        } else if c == 's' {
            if wireless {
                self.status_message = sentence("Scanning on ", name.as_str(), "...");
                Some(Request::Scan { interface: name })
            } else {
                self.status_message = String::from_str("Select a wireless interface first");
                None
            }
        } else if c == 'M' {
            let mut words = sentence("Spoofing MAC on ", name.as_str(), " to ");
            words.append(address.as_str());
            words.append("...");
            self.status_message = words;
            Some(Request::SpoofMac { interface: name, address })
        } else if c == 'R' {
            self.input_mode = InputMode::Rename;
            self.status_message = sentence(
                "Enter new name for ",
                name.as_str(),
                " (Press Enter to confirm)",
            );
            self.input_buffer = name;
            None
        } else {
            None
        }
    }

    /// Takes a key in normal mode.
    fn press_normal(&mut self, key: Key, address: String) -> (request: Option<Request>)
        ensures
            (final(self)@, asked(request)) == pressed_normal(old(self)@, key, address@),
    {
        match key {
            Key::Char(c) => self.press_letter(c, address),
            Key::F(n) => {
                if n == 1 {
                    self.show_help = !self.show_help;
                }
                None
            },
            Key::Tab => {
                self.next_tab();
                None
            },
            Key::BackTab => {
                self.previous_tab();
                None
            },
            Key::Down => {
                self.move_cursor(true);
                None
            },
            Key::Up => {
                self.move_cursor(false);
                None
            },
            _ => None,
        }
    }

    /// The rename that Enter asks for.
    fn rename_request(&self) -> (request: Option<Request>)
        ensures
            asked(request) == rename_asked(self@),
    {
        match self.selected_interface() {
            Some(interface) => {
                if self.input_mode == InputMode::Rename && !self.input_buffer.as_str().is_empty()
                    && !same_text(self.input_buffer.as_str(), interface.name.as_str()) {
                    Some(
                        Request::Rename {
                            interface: interface.name.clone(),
                            name: self.input_buffer.clone(),
                        },
                    )
                } else {
                    None
                }
            },
            None => None,
        }
    }

    /// Takes a key while something is typed in.
    fn press_typing(&mut self, key: Key) -> (request: Option<Request>)
        ensures
            (final(self)@, asked(request)) == pressed_typing(old(self)@, key),
    {
        match key {
            Key::Enter => {
                let request = self.rename_request();
                self.input_mode = InputMode::Normal;
                self.input_buffer = String::new();
                request
            },
            Key::Esc => {
                self.input_mode = InputMode::Normal;
                self.input_buffer = String::new();
                None
            },
            Key::Char(c) => {
                self.input_buffer.push(c);
                None
            },
            Key::Backspace => {
                let typed = chars_of(self.input_buffer.as_str());
                if typed.len() > 0 {
                    self.input_buffer = string_of(
                        slice_subrange(typed.as_slice(), 0, typed.len() - 1),
                    );
                }
                None
            },
            _ => None,
        }
    }

    /// Takes a key: the screen changes as the key asks, and where the key
    /// asks for work the request for it is handed out. The hardware address
    /// in a request to spoof one is drawn at random.
    pub fn press(&mut self, key: Key) -> (request: Option<Request>)
        ensures
            exists|octets: Seq<u8>|
                octets.len() == 6 && (final(self)@, asked(request)) == #[trigger] pressed(
                    old(self)@,
                    key,
                    mac_text(as_local(octets)),
                ),
    {
        if self.input_mode == InputMode::Normal {
            let spoof = match key {
                Key::Char(c) => c == 'M',
                _ => false,
            };
            let address = if spoof {
                NetworkManager::generate_random_mac()
            } else {
                String::new()
            };
            let ghost octets = if spoof {
                choose|octets: Seq<u8>| octets.len() == 6 && address@ == mac_text(as_local(octets))
            } else {
                Seq::new(6, |i: int| 0u8)
            };
            let request = self.press_normal(key, address);
            assert(octets.len() == 6 && (self@, asked(request)) == pressed(
                old(self)@,
                key,
                mac_text(as_local(octets)),
            ));
            request
        } else {
            let request = self.press_typing(key);
            let ghost octets = Seq::new(6, |i: int| 0u8);
            assert(octets.len() == 6 && (self@, asked(request)) == pressed(
                old(self)@,
                key,
                mac_text(as_local(octets)),
            ));
            request
        }
    }

    /// Takes in what came of a request: the screen says how it went, and
    /// where more work follows the request for it is handed out.
    pub fn finish(&mut self, request: Request, outcome: Outcome) -> (next: Option<Request>)
        ensures
            (final(self)@, asked(next)) == resolved(old(self)@, request@, outcome),
    {
        match (request, outcome) {
            (Request::ListInterfaces { announce, delay_secs }, Outcome::Listed(listing)) => {
                self.refresh_interfaces(listing);
                if announce {
                    self.status_message = String::from_str("Interfaces refreshed");
                }
                None
            },
            (Request::ReadMode { interface }, Outcome::Mode(mode)) => {
                self.status_message = sentence("Toggling monitor mode on ", interface.as_str(), "...");
                Some(Request::SetMonitor { interface, enable: mode != WirelessMode::Monitor })
            },
            (Request::SetMonitor { interface, enable }, Outcome::Done(result)) => {
                let success = if enable {
                    sentence("Monitor mode enabled on ", interface.as_str(), "")
                } else {
                    sentence("Monitor mode disabled on ", interface.as_str(), "")
                };
                proof {
                    reveal_strlit("");
                    assert(success@ =~= if enable {
                        "Monitor mode enabled on "@ + interface@
                    } else {
                        "Monitor mode disabled on "@ + interface@
                    });
                }
                self.end(result, success, 0)
            },
            (Request::BringUp { interface }, Outcome::Done(result)) => {
                let success = sentence("", interface.as_str(), " is now UP");
                proof {
                    reveal_strlit("");
                    assert(success@ =~= interface@ + " is now UP"@);
                }
                self.end(result, success, 0)
            },
            (Request::BringDown { interface }, Outcome::Done(result)) => {
                let success = sentence("", interface.as_str(), " is now DOWN");
                proof {
                    reveal_strlit("");
                    assert(success@ =~= interface@ + " is now DOWN"@);
                }
                self.end(result, success, 0)
            },
            (Request::Scan { interface }, Outcome::Scanned(result)) => {
                self.take_scan(result);
                None
            },
            (Request::RestartNetworkManager, Outcome::Done(result)) => {
                let success = String::from_str("NetworkManager restarted");
                self.end(result, success, 1)
            },
            (Request::SpoofMac { interface, address }, Outcome::Done(result)) => {
                let success = sentence("MAC changed to ", address.as_str(), "");
                proof {
                    reveal_strlit("");
                    assert(success@ =~= "MAC changed to "@ + address@);
                }
                self.end(result, success, 0)
            },
            (Request::Rename { interface, name }, Outcome::Done(result)) => {
                let mut success = sentence("Renamed ", interface.as_str(), " to ");
                success.append(name.as_str());
                self.end(result, success, 0)
            },
            _ => None,
        }
    }

    /// Takes in how a command ended.
    fn end(&mut self, result: Result<(), String>, success: String, delay_secs: u64) -> (next:
        Option<Request>)
        ensures
            (final(self)@, asked(next)) == ended(old(self)@, result, success@, delay_secs),
    {
        match result {
            Ok(_) => {
                self.status_message = success;
                Some(Request::ListInterfaces { announce: false, delay_secs })
            },
            Err(complaint) => {
                self.status_message = sentence("Error: ", complaint.as_str(), "");
                assert(self.status_message@ =~= "Error: "@ + complaint@) by {
                    reveal_strlit("");
                }
                None
            },
        }
    }

    /// Takes in what a scan gave.
    fn take_scan(&mut self, result: Result<Vec<WifiNetwork>, String>)
        ensures
            final(self)@ == scanned(old(self)@, result),
    {
        match result {
            Ok(networks) => {
                let count = decimal_text(networks.len());
                self.status_message = sentence("Found ", count.as_str(), " networks");
                if networks.len() > 0 {
                    self.network_state = Some(0);
                }
                self.networks = networks;
                self.current_tab = 1;
            },
            Err(reason) => {
                self.status_message = sentence("Scan error: ", reason.as_str(), "");
                assert(self.status_message@ =~= "Scan error: "@ + reason@) by {
                    reveal_strlit("");
                }
            },
        }
    }
}

} // verus!
