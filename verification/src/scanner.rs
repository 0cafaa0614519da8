//! Wireless networks as a scan reports them, and the scanner that keeps
//! them.

use vstd::prelude::*;
use vstd::string::StringExecFns;
use crate::channel::channel_of;
use crate::command::CommandOutput;
use crate::ranking::{rank_networks, ranked};
use crate::number::{parse_i32, parse_u32};
use crate::outside::current_time;
use crate::scan_model::{
    finished, fresh, lemma_read_uses_the_times_of_its_records, noted, read, remembered,
    scan_failure, scan_records, step, upgraded, Draft, WifiNetworkRecord,
};
use crate::text::{
    chars_of, contains, lemma_first_occurrence, lines, push_text, same_text, split_line,
    split_word, starts_with, string_of, strip_prefix, text_after, text_before, text_of, trim,
};

verus! {

/// How a wireless network is secured.
#[derive(Debug, Clone, Copy, PartialEq, Eq, Structural)]
pub enum SecurityType {
    Open,
    WEP,
    WPA,
    WPA2,
    WPA3,
    WPA2Enterprise,
    Unknown,
}

impl SecurityType {
    /// The name of the security type as it is shown.
    pub open spec fn label(self) -> Seq<char> {
        match self {
            SecurityType::Open => "Open"@,
            SecurityType::WEP => "WEP"@,
            SecurityType::WPA => "WPA"@,
            SecurityType::WPA2 => "WPA2"@,
            SecurityType::WPA3 => "WPA3"@,
            SecurityType::WPA2Enterprise => "WPA2-Enterprise"@,
            SecurityType::Unknown => "Unknown"@,
        }
    }

    /// The name of the security type as it is shown.
    pub fn as_str(&self) -> (name: &'static str)
        ensures
            name@ == self.label(),
    {
        match self {
            SecurityType::Open => "Open",
            SecurityType::WEP => "WEP",
            SecurityType::WPA => "WPA",
            SecurityType::WPA2 => "WPA2",
            SecurityType::WPA3 => "WPA3",
            SecurityType::WPA2Enterprise => "WPA2-Enterprise",
            SecurityType::Unknown => "Unknown",
        }
    }

    /// The security that follows from this one and one more line of the
    /// block.
    pub fn upgrade(self, line: &[char]) -> (next: SecurityType)
        ensures
            next == upgraded(self, line@),
    {
        if contains(line, "WPA3") {
            SecurityType::WPA3
        } else if contains(line, "RSN") || contains(line, "WPA2") {
            if self == SecurityType::WPA3 {
                SecurityType::WPA3
            } else if contains(line, "802.1X") || contains(line, "EAP") {
                SecurityType::WPA2Enterprise
            } else {
                SecurityType::WPA2
            }
        } else if contains(line, "WPA") && self == SecurityType::Open {
            SecurityType::WPA
        } else if contains(line, "WEP") && self == SecurityType::Open {
            SecurityType::WEP
        } else {
            self
        }
    }
}

/// A point in time: whole seconds since the Unix epoch, and the nanoseconds
/// past that second.
#[derive(Debug, Clone, Copy, PartialEq, Eq, Structural)]
pub struct Timestamp {
    pub secs: i64,
    pub nanos: u32,
}

/// One wireless network, as the scan that saw it last reported it.
#[derive(Debug)]
pub struct WifiNetwork {
    pub ssid: String,
    pub bssid: String,
    pub channel: u32,
    pub frequency: u32,
    pub signal_strength: i32,
    pub security: SecurityType,
    pub mode: String,
    pub last_seen: Timestamp,
}

impl View for WifiNetwork {
    type V = WifiNetworkRecord;

    open spec fn view(&self) -> WifiNetworkRecord {
        WifiNetworkRecord {
            ssid: self.ssid@,
            bssid: self.bssid@,
            channel: self.channel,
            frequency: self.frequency,
            signal_strength: self.signal_strength,
            security: self.security,
            mode: self.mode@,
            last_seen: self.last_seen,
        }
    }
}

impl Clone for WifiNetwork {
    fn clone(&self) -> (copy: Self)
        ensures
            copy == *self,
    {
        WifiNetwork {
            ssid: self.ssid.clone(),
            bssid: self.bssid.clone(),
            channel: self.channel,
            frequency: self.frequency,
            signal_strength: self.signal_strength,
            security: self.security,
            mode: self.mode.clone(),
            last_seen: self.last_seen,
        }
    }
}

/// The records that a sequence of networks stands for.
pub open spec fn records_of(networks: Seq<WifiNetwork>) -> Seq<WifiNetworkRecord> {
    networks.map_values(|n: WifiNetwork| n@)
}

/// The record of one access point while the lines of its block are read.
#[derive(Debug)]
pub struct WifiNetworkBuilder {
    pub bssid: String,
    pub ssid: Option<String>,
    pub channel: Option<u32>,
    pub frequency: Option<u32>,
    pub signal_strength: Option<i32>,
    pub security: SecurityType,
}

impl View for WifiNetworkBuilder {
    type V = Draft;

    open spec fn view(&self) -> Draft {
        Draft {
            bssid: self.bssid@,
            ssid: text_of(self.ssid),
            channel: self.channel,
            frequency: self.frequency,
            signal_strength: self.signal_strength,
            security: self.security,
        }
    }
}

impl WifiNetworkBuilder {
    /// The builder that a block marker opens.
    pub fn new(bssid: String) -> (builder: Self)
        ensures
            builder@ == fresh(bssid@),
    {
        WifiNetworkBuilder {
            bssid,
            ssid: None,
            channel: None,
            frequency: None,
            signal_strength: None,
            security: SecurityType::Open,
        }
    }

    /// Takes one line on the network's security into account.
    pub fn update_security(&mut self, line: &str)
        ensures
            final(self)@ == (Draft { security: upgraded(old(self)@.security, line@), ..old(self)@ }),
    {
        let line = chars_of(line);
        self.security = self.security.upgrade(line.as_slice());
    }

    /// Takes one more line of the block into account. The line is expected
    /// trimmed.
    pub fn note_line(&mut self, line: &[char])
        ensures
            final(self)@ == noted(old(self)@, line@),
    {
        if let Some(name) = strip_prefix(line, "SSID:") {
            self.ssid = Some(string_of(trim(name)));
        } else if let Some(value) = strip_prefix(line, "freq:") {
            let frequency = parse_u32(trim(value));
            let looked_up = WifiScanner::freq_to_channel(
                match frequency {
                    Some(f) => f,
                    None => 0,
                },
            );
            self.frequency = frequency;
            if looked_up.is_some() {
                self.channel = looked_up;
            }
        } else if let Some(value) = strip_prefix(line, "signal:") {
            let (number, _) = split_word(value);
            self.signal_strength = parse_i32(number);
        } else if contains(line, "WPA") || contains(line, "RSN") || contains(line, "WEP") {
            self.security = self.security.upgrade(line);
        } else if starts_with(line, "DS Parameter set:") {
            proof {
                lemma_first_occurrence(line@, "channel"@);
            }
            if let Some(rest) = text_after(line, "channel") {
                self.channel = parse_u32(trim(text_before(rest, "channel")));
            }
        }
    }

    /// The finished record, seen at the time `seen`.
    pub fn build_at(self, seen: Timestamp) -> (network: WifiNetwork)
        ensures
            network@ == finished(self@, seen),
    {
        WifiNetwork {
            ssid: match self.ssid {
                Some(name) => name,
                None => "<hidden>".to_owned(),
            },
            bssid: self.bssid,
            channel: match self.channel {
                Some(c) => c,
                None => 0,
            },
            frequency: match self.frequency {
                Some(f) => f,
                None => 0,
            },
            signal_strength: match self.signal_strength {
                Some(s) => s,
                None => -100,
            },
            security: self.security,
            mode: "Infrastructure".to_owned(),
            last_seen: seen,
        }
    }

    /// The finished record, seen now.
    fn finish(builder: Self) -> (network: WifiNetwork)
        ensures
            network@ == finished(builder@, network.last_seen),
    {
        let seen = current_time();
        builder.build_at(seen)
    }

    /// The finished record, seen now. There always is one.
    pub fn build(self) -> (network: Option<WifiNetwork>)
        ensures
            network matches Some(n) && n@ == finished(self@, n.last_seen),
    {
        Some(WifiNetworkBuilder::finish(self))
    }
}

/// Why a scan gave no networks.
#[derive(Debug)]
pub struct ScanError {
    pub message: String,
}

/// The draft that an optional builder stands for.
pub open spec fn draft_of(builder: Option<WifiNetworkBuilder>) -> Option<Draft> {
    match builder {
        Some(b) => Some(b@),
        None => None,
    }
}

/// Some network of `networks` has the BSSID `key`.
pub open spec fn holds(networks: Seq<WifiNetwork>, key: Seq<char>) -> bool {
    exists|i: int| 0 <= i < networks.len() && (#[trigger] networks[i]).bssid@ == key
}

/// An index at which `networks` has the BSSID `key`.
pub open spec fn slot(networks: Seq<WifiNetwork>, key: Seq<char>) -> int {
    choose|i: int| 0 <= i < networks.len() && (#[trigger] networks[i]).bssid@ == key
}

/// No two networks of `networks` share a BSSID.
pub open spec fn distinct(networks: Seq<WifiNetwork>) -> bool {
    forall|i: int, j: int|
        0 <= i < j < networks.len() ==> (#[trigger] networks[i]).bssid@ != (
        #[trigger] networks[j]).bssid@
}

/// The networks as a map from BSSID to record.
pub open spec fn keyed(networks: Seq<WifiNetwork>) -> Map<Seq<char>, WifiNetworkRecord> {
    Map::new(|key: Seq<char>| holds(networks, key), |key: Seq<char>| networks[slot(networks, key)]@)
}

/// Putting a network in the place of one with the same BSSID changes the
/// map at that key alone, and leaves the BSSIDs distinct.
proof fn lemma_keyed_replace(networks: Seq<WifiNetwork>, i: int, network: WifiNetwork)
    requires
        distinct(networks),
        0 <= i < networks.len(),
        networks[i].bssid@ == network.bssid@,
    ensures
        distinct(networks.update(i, network)),
        keyed(networks.update(i, network)) == keyed(networks).insert(network.bssid@, network@),
{
    let key = network.bssid@;
    let now = networks.update(i, network);
    assert forall|k: Seq<char>| holds(now, k) == holds(networks, k) by {
        if holds(networks, k) {
            let j = slot(networks, k);
            assert(now[j].bssid@ == k);
        }
        if holds(now, k) {
            let j = slot(now, k);
            assert(networks[j].bssid@ == k);
        }
    }
    assert(holds(now, key)) by {
        assert(now[i].bssid@ == key);
    }
    assert forall|k: Seq<char>| holds(now, k) implies #[trigger] keyed(now)[k] == keyed(
        networks,
    ).insert(key, network@)[k] by {
        let j = slot(now, k);
        if k == key {
            assert(j == i);
        } else {
            let b = slot(networks, k);
            assert(networks[j].bssid@ == k);
            assert(b == j);
        }
    }
    assert(keyed(now) =~= keyed(networks).insert(key, network@));
}

/// Adding a network with a BSSID that none has yet adds its key to the map,
/// and leaves the BSSIDs distinct.
proof fn lemma_keyed_add(networks: Seq<WifiNetwork>, network: WifiNetwork)
    requires
        distinct(networks),
        !holds(networks, network.bssid@),
    ensures
        distinct(networks.push(network)),
        keyed(networks.push(network)) == keyed(networks).insert(network.bssid@, network@),
{
    let key = network.bssid@;
    let now = networks.push(network);
    let n = networks.len() as int;
    assert forall|k: Seq<char>| holds(now, k) == (holds(networks, k) || k == key) by {
        if holds(networks, k) {
            let j = slot(networks, k);
            assert(now[j].bssid@ == k);
        }
        if holds(now, k) {
            let j = slot(now, k);
            if j != n {
                assert(networks[j].bssid@ == k);
            }
        }
        if k == key {
            assert(now[n].bssid@ == k);
        }
    }
    assert forall|k: Seq<char>| holds(now, k) implies #[trigger] keyed(now)[k] == keyed(
        networks,
    ).insert(key, network@)[k] by {
        let j = slot(now, k);
        if k == key {
            if j != n {
                assert(networks[j].bssid@ == k);
            }
        } else {
            let b = slot(networks, k);
            assert(networks[j].bssid@ == k);
            assert(now[b].bssid@ == k);
            assert(b == j);
        }
    }
    assert(keyed(now) =~= keyed(networks).insert(key, network@));
}

/// Networks with distinct BSSIDs stand in the map each under its own
/// BSSID, and the map has no other key.
pub proof fn lemma_keyed_holds_each(networks: Seq<WifiNetwork>, i: int)
    requires
        distinct(networks),
        0 <= i < networks.len(),
    ensures
        keyed(networks).dom().contains(networks[i].bssid@),
        keyed(networks)[networks[i].bssid@] == networks[i]@,
        forall|key: Seq<char>| keyed(networks).dom().contains(key) <==> holds(networks, key),
{
    let key = networks[i].bssid@;
    assert(holds(networks, key));
    let j = slot(networks, key);
    assert(i == j);
}

/// Networks with distinct BSSIDs make a map with as many keys as there are
/// networks: no key stands for two of them.
pub proof fn lemma_keyed_counts_each_once(networks: Seq<WifiNetwork>)
    requires
        distinct(networks),
    ensures
        keyed(networks).dom().finite(),
        keyed(networks).dom().len() == networks.len(),
    decreases networks.len(),
{
    if networks.len() == 0 {
        assert(keyed(networks).dom() =~= Set::<Seq<char>>::empty());
    } else {
        let rest = networks.drop_last();
        let last = networks.last();
        assert forall|i: int, j: int| 0 <= i < j < rest.len() implies (#[trigger] rest[i]).bssid@
            != (#[trigger] rest[j]).bssid@ by {
            assert(rest[i] == networks[i] && rest[j] == networks[j]);
        }
        assert(!holds(rest, last.bssid@)) by {
            if holds(rest, last.bssid@) {
                let j = slot(rest, last.bssid@);
                assert(networks[j].bssid@ == networks[networks.len() - 1].bssid@);
            }
        }
        lemma_keyed_counts_each_once(rest);
        lemma_keyed_add(rest, last);
        assert(networks == rest.push(last));
        assert(keyed(networks).dom() =~= keyed(rest).dom().insert(last.bssid@));
        assert(!keyed(rest).dom().contains(last.bssid@));
    }
}

/// The scanner of one wireless interface. It keeps the networks that its
/// scans have seen, one for each BSSID: the record of the latest scan that
/// reported it.
pub struct WifiScanner {
    interface: String,
    networks: Vec<WifiNetwork>,
}

impl WifiScanner {
    #[verifier::type_invariant]
    spec fn one_per_bssid(self) -> bool {
        distinct(self.networks@)
    }

    /// The name of the interface that the scanner scans with.
    pub closed spec fn interface(&self) -> Seq<char> {
        self.interface@
    }

    /// The networks kept, by BSSID.
    pub closed spec fn cache(&self) -> Map<Seq<char>, WifiNetworkRecord> {
        keyed(self.networks@)
    }

    /// `after` and `networks` are what comes of the scanner `before` and
    /// a scan report whose records are stamped by `clock`: the networks
    /// are the report's records, strongest first, and the cache has taken
    /// them in.
    pub open spec fn is_scan(
        before: Self,
        report: Seq<char>,
        clock: Seq<Timestamp>,
        networks: Seq<WifiNetwork>,
        after: Self,
    ) -> bool {
        &&& records_of(networks) == ranked(scan_records(report, clock))
        &&& after.cache() == remembered(before.cache(), scan_records(report, clock))
        &&& after.interface() == before.interface()
    }

    /// A scanner for the given interface that has seen nothing yet.
    pub fn new(interface: &str) -> (scanner: Self)
        ensures
            scanner.interface() == interface@,
            scanner.cache() == Map::<Seq<char>, WifiNetworkRecord>::empty(),
    {
        let scanner = WifiScanner { interface: interface.to_owned(), networks: Vec::new() };
        assert(scanner.cache() =~= Map::<Seq<char>, WifiNetworkRecord>::empty());
        scanner
    }

    /// The name of the interface that the scanner scans with.
    pub fn interface_name(&self) -> (name: &str)
        ensures
            name@ == self.interface(),
    {
        self.interface.as_str()
    }

    /// Where the network with the given BSSID is kept.
    fn position(&self, bssid: &str) -> (at: Option<usize>)
        ensures
            match at {
                Some(i) => i < self.networks.len() && self.networks[i as int].bssid@ == bssid@,
                None => !holds(self.networks@, bssid@),
            },
    {
        let mut i: usize = 0;
        while i < self.networks.len()
            invariant
                i <= self.networks.len(),
                forall|j: int| 0 <= j < i ==> (#[trigger] self.networks[j]).bssid@ != bssid@,
            decreases self.networks.len() - i,
        {
            if same_text(self.networks[i].bssid.as_str(), bssid) {
                return Some(i);
            }
            i += 1;
        }
        None
    }

    /// Keeps the network under its BSSID, in place of what was kept there.
    pub fn remember(&mut self, network: WifiNetwork)
        ensures
            final(self).cache() == old(self).cache().insert(network.bssid@, network@),
            final(self).interface() == old(self).interface(),
    {
        proof {
            use_type_invariant(&*self);
        }
        let ghost before = self.networks@;
        let at = self.position(network.bssid.as_str());
        let mut kept: Vec<WifiNetwork> = Vec::new();
        core::mem::swap(&mut self.networks, &mut kept);
        match at {
            Some(i) => {
                proof {
                    lemma_keyed_replace(before, i as int, network);
                }
                kept.set(i, network);
            },
            None => {
                proof {
                    lemma_keyed_add(before, network);
                }
                kept.push(network);
            },
        }
        self.networks = kept;
    }

    /// Finishes a block: its network is kept, and joins those found.
    fn finish_block(&mut self, builder: WifiNetworkBuilder, found: &mut Vec<WifiNetwork>) -> (seen:
        Ghost<Timestamp>)
        ensures
            records_of(final(found)@) == records_of(old(found)@).push(finished(builder@, seen@)),
            final(self).cache() == old(self).cache().insert(
                builder@.bssid,
                finished(builder@, seen@),
            ),
            final(self).interface() == old(self).interface(),
    {
        let network = WifiNetworkBuilder::finish(builder);
        let ghost seen = network.last_seen;
        self.remember(network.clone());
        assert(records_of(found@.push(network)) == records_of(found@).push(network@));
        found.push(network);
        Ghost(seen)
    }

    /// Reads a scan report: keeps each network that it lists, and hands
    /// them out strongest signal first. Each network is stamped with the
    /// time at which its block was finished.
    pub fn parse_scan_results(&mut self, output: &str) -> (networks: Vec<WifiNetwork>)
        ensures
            exists|clock: Seq<Timestamp>|
                WifiScanner::is_scan(*old(self), output@, clock, networks@, *final(self)),
    {
        let text = chars_of(output);
        let mut rest: &[char] = text.as_slice();
        let mut found: Vec<WifiNetwork> = Vec::new();
        let mut open: Option<WifiNetworkBuilder> = None;
        let ghost mut done: Seq<Seq<char>> = Seq::empty();
        let ghost mut clock: Seq<Timestamp> = Seq::empty();
        assert(lines(text@) == done + lines(rest@));
        assert(records_of(found@) == Seq::<WifiNetworkRecord>::empty());
        while rest.len() > 0
            invariant
                lines(text@) == done + lines(rest@),
                clock.len() == found.len(),
                records_of(found@) == read(done, clock).finished,
                draft_of(open) == read(done, clock).open,
                self.cache() == remembered(old(self).cache(), read(done, clock).finished),
                self.interface() == old(self).interface(),
            decreases rest.len(),
        {
            let ghost before = read(done, clock);
            let (raw, next) = split_line(rest);
            let line = trim(raw);
            let builder = open.take();
            if let Some(tail) = strip_prefix(line, "BSS ") {
                if let Some(b) = builder {
                    let seen = self.finish_block(b, &mut found);
                    proof {
                        lemma_read_uses_the_times_of_its_records(done, clock, clock.push(seen@));
                        clock = clock.push(seen@);
                        let grown = before.finished.push(finished(b@, seen@));
                        assert(grown.drop_last() == before.finished);
                    }
                }
                let bssid = string_of(trim(text_before(tail, "(")));
                open = Some(WifiNetworkBuilder::new(bssid));
            } else if let Some(mut b) = builder {
                b.note_line(line);
                open = Some(b);
            }
            proof {
                let longer = done.push(raw@);
                assert(longer.drop_last() == done);
                assert(read(longer, clock) == step(before, raw@, clock));
                assert(done + lines(rest@) == longer + lines(next@));
                done = longer;
            }
            rest = next;
        }
        assert(done + lines(rest@) == done);
        if let Some(b) = open {
            let ghost before = read(done, clock);
            let seen = self.finish_block(b, &mut found);
            proof {
                lemma_read_uses_the_times_of_its_records(done, clock, clock.push(seen@));
                clock = clock.push(seen@);
                let grown = before.finished.push(finished(b@, seen@));
                assert(grown.drop_last() == before.finished);
            }
        }
        let networks = rank_networks(found);
        assert(WifiScanner::is_scan(*old(self), output@, clock, networks@, *self));
        networks
    }

    /// Takes in what the scan command left behind. A command that failed
    /// gives the error that reports it, and leaves the scanner as it was;
    /// one that succeeded has its report read.
    pub fn scan(&mut self, output: &CommandOutput) -> (result: Result<Vec<WifiNetwork>, ScanError>)
        ensures
            final(self).interface() == old(self).interface(),
            match result {
                Ok(networks) => {
                    &&& output.success
                    &&& exists|clock: Seq<Timestamp>|
                        WifiScanner::is_scan(
                            *old(self),
                            output.stdout@,
                            clock,
                            networks@,
                            *final(self),
                        )
                },
                Err(error) => {
                    &&& !output.success
                    &&& error.message@ == scan_failure(output.stderr@)
                    &&& final(self).cache() == old(self).cache()
                },
            },
    {
        if !output.success {
            let complaint = chars_of(output.stderr.as_str());
            let hint = contains(complaint.as_slice(), "Operation not permitted") || contains(
                complaint.as_slice(),
                "Network is down",
            );
            let mut message = String::from_str("Scan failed: ");
            push_text(&mut message, trim(complaint.as_slice()));
            if hint {
                message.append(". Try running with sudo or ensure interface is up.");
            }
            return Err(ScanError { message });
        }
        let networks = self.parse_scan_results(output.stdout.as_str());
        let ghost found = networks@;
        let result = Ok(networks);
        assert(result matches Ok(n) && n@ == found);
        result
    }

    /// The networks kept, each once, in no particular order.
    pub fn get_cached_networks(&self) -> (networks: Vec<WifiNetwork>)
        ensures
            distinct(networks@),
            keyed(networks@) == self.cache(),
    {
        proof {
            use_type_invariant(self);
        }
        let mut networks: Vec<WifiNetwork> = Vec::new();
        let mut i: usize = 0;
        while i < self.networks.len()
            invariant
                i <= self.networks.len(),
                networks@ == self.networks@.take(i as int),
            decreases self.networks.len() - i,
        {
            networks.push(self.networks[i].clone());
            i += 1;
        }
        assert(networks@ == self.networks@);
        networks
    }

    /// Forgets every network.
    pub fn clear_cache(&mut self)
        ensures
            final(self).cache() == Map::<Seq<char>, WifiNetworkRecord>::empty(),
            final(self).interface() == old(self).interface(),
    {
        self.networks = Vec::new();
        assert(self.cache() =~= Map::<Seq<char>, WifiNetworkRecord>::empty());
    }

    /// The network kept under the given BSSID.
    pub fn get_network(&self, bssid: &str) -> (network: Option<&WifiNetwork>)
        ensures
            match network {
                Some(n) => self.cache().dom().contains(bssid@) && n@ == self.cache()[bssid@],
                None => !self.cache().dom().contains(bssid@),
            },
    {
        proof {
            use_type_invariant(self);
        }
        match self.position(bssid) {
            Some(i) => {
                proof {
                    let j = slot(self.networks@, bssid@);
                    assert(self.networks@[i as int].bssid@ == bssid@);
                    assert(i == j);
                }
                Some(&self.networks[i])
            },
            None => None,
        }
    }

    /// The channel whose centre frequency is `freq` MHz.
    pub fn freq_to_channel(freq: u32) -> (channel: Option<u32>)
        ensures
            channel == channel_of(freq),
    {
        match freq {
            2412 => Some(1),
            2417 => Some(2),
            2422 => Some(3),
            2427 => Some(4),
            2432 => Some(5),
            2437 => Some(6),
            2442 => Some(7),
            2447 => Some(8),
            2452 => Some(9),
            2457 => Some(10),
            2462 => Some(11),
            2467 => Some(12),
            2472 => Some(13),
            2484 => Some(14),
            5180 => Some(36),
            5200 => Some(40),
            5220 => Some(44),
            5240 => Some(48),
            5260 => Some(52),
            5280 => Some(56),
            5300 => Some(60),
            5320 => Some(64),
            5500 => Some(100),
            5520 => Some(104),
            5540 => Some(108),
            5560 => Some(112),
            5580 => Some(116),
            5600 => Some(120),
            5620 => Some(124),
            5640 => Some(128),
            5660 => Some(132),
            5680 => Some(136),
            5700 => Some(140),
            5720 => Some(144),
            5745 => Some(149),
            5765 => Some(153),
            5785 => Some(157),
            5805 => Some(161),
            5825 => Some(165),
            _ => None,
        }
    }
}

/// What one round of continuous scanning comes to.
#[derive(Debug)]
pub enum ScanRound {
    /// The scan succeeded: its networks, to be handed to whoever listens.
    Deliver(Vec<WifiNetwork>),
    /// The scan failed: the line that reports it.
    Report(String),
}

/// A scanner that scans again and again, with a pause between two scans.
pub struct ContinuousScanner {
    scanner: WifiScanner,
    scan_interval_secs: u64,
}

impl ContinuousScanner {
    /// The scanner that does the scans.
    pub closed spec fn scanner_view(&self) -> WifiScanner {
        self.scanner
    }

    /// The pause between two scans, in seconds.
    pub closed spec fn interval(&self) -> u64 {
        self.scan_interval_secs
    }

    /// A continuous scanner for the given interface that has seen nothing
    /// yet.
    pub fn new(interface: &str, scan_interval_secs: u64) -> (scanner: Self)
        ensures
            scanner.scanner_view().interface() == interface@,
            scanner.scanner_view().cache() == Map::<Seq<char>, WifiNetworkRecord>::empty(),
            scanner.interval() == scan_interval_secs,
    {
        ContinuousScanner { scanner: WifiScanner::new(interface), scan_interval_secs }
    }

    /// The pause between two scans, in seconds.
    pub fn scan_interval_secs(&self) -> (secs: u64)
        ensures
            secs == self.interval(),
    {
        self.scan_interval_secs
    }

    /// Takes in what one scan command left behind, and says what the round
    /// comes to. After it the caller pauses for the interval and scans
    /// again, whatever the round came to.
    pub fn round(&mut self, output: &CommandOutput) -> (round: ScanRound)
        ensures
            final(self).interval() == old(self).interval(),
            final(self).scanner_view().interface() == old(self).scanner_view().interface(),
            match round {
                ScanRound::Deliver(networks) => {
                    &&& output.success
                    &&& exists|clock: Seq<Timestamp>|
                        WifiScanner::is_scan(
                            old(self).scanner_view(),
                            output.stdout@,
                            clock,
                            networks@,
                            final(self).scanner_view(),
                        )
                },
                ScanRound::Report(line) => {
                    &&& !output.success
                    &&& line@ == "Scan error: "@ + scan_failure(output.stderr@)
                    &&& final(self).scanner_view().cache() == old(self).scanner_view().cache()
                },
            },
    {
        let result = self.scanner.scan(output);
        let ghost scanned = result;
        match result {
            Ok(networks) => {
                let ghost found = networks@;
                proof {
                    assert(scanned matches Ok(n) && n@ == found);
                    let clock = choose|clock: Seq<Timestamp>|
                        WifiScanner::is_scan(
                            old(self).scanner,
                            output.stdout@,
                            clock,
                            found,
                            self.scanner,
                        );
                    assert(WifiScanner::is_scan(
                        old(self).scanner_view(),
                        output.stdout@,
                        clock,
                        found,
                        self.scanner_view(),
                    ));
                }
                let round = ScanRound::Deliver(networks);
                assert(round matches ScanRound::Deliver(n) && n@ == found);
                round
            },
            Err(error) => {
                let mut line = String::from_str("Scan error: ");
                line.append(error.message.as_str());
                ScanRound::Report(line)
            },
        }
    }

    /// The scanner that does the scans.
    pub fn scanner(&self) -> (scanner: &WifiScanner)
        ensures
            *scanner == self.scanner_view(),
    {
        &self.scanner
    }

    /// The scanner that does the scans, to be changed in place.
    pub fn scanner_mut(&mut self) -> (scanner: &mut WifiScanner)
        ensures
            *scanner == old(self).scanner_view(),
            final(self).scanner_view() == *final(scanner),
            final(self).interval() == old(self).interval(),
    {
        &mut self.scanner
    }
}

/// The quality, in percent, of a signal of `dbm` dBm: 100 from -50 dBm up,
/// 0 from -100 dBm down, and two points for each dBm between.
pub open spec fn quality_of(dbm: int) -> int {
    if dbm >= -50 {
        100
    } else if dbm <= -100 {
        0
    } else {
        2 * (dbm + 100)
    }
}

/// The quality lies between 0 and 100, is 0 for every signal of -100 dBm
/// or weaker and 100 for every signal of -50 dBm or stronger, and a
/// stronger signal never has the lower quality.
pub proof fn lemma_quality_is_clamped(weaker: int, stronger: int)
    requires
        weaker <= stronger,
    ensures
        0 <= quality_of(weaker) <= quality_of(stronger) <= 100,
        weaker <= -100 ==> quality_of(weaker) == 0,
        stronger >= -50 ==> quality_of(stronger) == 100,
{
}

/// How many of the four bars a signal of the given quality fills: one for
/// every full twenty points, four at most.
pub open spec fn filled_bars(quality: int) -> int {
    if quality >= 80 {
        4
    } else if quality >= 60 {
        3
    } else if quality >= 40 {
        2
    } else if quality >= 20 {
        1
    } else {
        0
    }
}

/// Four bars of which the first `filled` are full blocks and the others
/// light shade.
pub open spec fn bars(filled: int) -> Seq<char> {
    Seq::new(
        4,
        |i: int|
            if i < filled {
                '\u{2588}'
            } else {
                '\u{2591}'
            },
    )
}

/// How strong a signal is at a glance.
#[derive(Debug, Clone, Copy, PartialEq, Eq, Structural)]
pub enum SignalGrade {
    Strong,
    Fair,
    Weak,
}

/// The grade of a signal of `dbm` dBm: strong above -50 dBm, fair above
/// -70 dBm, weak from there down.
pub open spec fn grade_of(dbm: int) -> SignalGrade {
    if dbm > -50 {
        SignalGrade::Strong
    } else if dbm > -70 {
        SignalGrade::Fair
    } else {
        SignalGrade::Weak
    }
}

/// The grade of a signal.
pub fn signal_grade(signal_dbm: i32) -> (grade: SignalGrade)
    ensures
        grade == grade_of(signal_dbm as int),
{
    if signal_dbm > -50 {
        SignalGrade::Strong
    } else if signal_dbm > -70 {
        SignalGrade::Fair
    } else {
        SignalGrade::Weak
    }
}

/// Signal strength to quality percentage.
pub fn signal_to_quality(signal_dbm: i32) -> (quality: u8)
    ensures
        quality == quality_of(signal_dbm as int),
        quality <= 100,
{
    if signal_dbm >= -50 {
        100
    } else if signal_dbm <= -100 {
        0
    } else {
        (2 * (signal_dbm + 100)) as u8
    }
}

/// Signal strength to bar representation.
pub fn signal_to_bars(signal_dbm: i32) -> (shown: &'static str)
    ensures
        shown@ == bars(filled_bars(quality_of(signal_dbm as int))),
{
    let quality = signal_to_quality(signal_dbm);
    proof {
        reveal_strlit("████");
        reveal_strlit("███░");
        reveal_strlit("██░░");
        reveal_strlit("█░░░");
        reveal_strlit("░░░░");
    }
    let shown = if quality >= 80 {
        "████"
    } else if quality >= 60 {
        "███░"
    } else if quality >= 40 {
        "██░░"
    } else if quality >= 20 {
        "█░░░"
    } else {
        "░░░░"
    };
    assert(shown@ =~= bars(filled_bars(quality as int)));
    shown
}

} // verus!
