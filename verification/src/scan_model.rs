//! What a wireless scan report means.
//!
//! A report is read line by line. A line that starts with the block marker
//! opens the record of one access point; the lines up to the next marker
//! fill it in; the next marker, or the end of the report, finishes it. This
//! module states that reading as spec functions over sequences of
//! characters, and the laws that follow from it.

use vstd::prelude::*;
use crate::channel::channel_of;
use crate::number::{parsed_i32, parsed_u32};
use crate::scanner::{SecurityType, Timestamp};
use crate::text::{
    after, after_prefix, before, first_word, has_prefix, lemma_mentions_part, lines, mentions,
    occurs_at, trimmed,
};

verus! {

/// One access point as a scan reports it: the mathematical value of a
/// `WifiNetwork`.
pub struct WifiNetworkRecord {
    pub ssid: Seq<char>,
    pub bssid: Seq<char>,
    pub channel: u32,
    pub frequency: u32,
    pub signal_strength: i32,
    pub security: SecurityType,
    pub mode: Seq<char>,
    pub last_seen: Timestamp,
}

/// A record that is still being filled in: the mathematical value of a
/// `WifiNetworkBuilder`.
pub struct Draft {
    pub bssid: Seq<char>,
    pub ssid: Option<Seq<char>>,
    pub channel: Option<u32>,
    pub frequency: Option<u32>,
    pub signal_strength: Option<i32>,
    pub security: SecurityType,
}

/// The draft that a block marker opens: nothing known but the BSSID, and
/// the network taken to be open.
pub open spec fn fresh(bssid: Seq<char>) -> Draft {
    Draft {
        bssid,
        ssid: None,
        channel: None,
        frequency: None,
        signal_strength: None,
        security: SecurityType::Open,
    }
}

/// The record that a draft becomes when it is finished at the time
/// `seen`. What no line gave takes its default: the name `<hidden>`,
/// channel and frequency 0, a signal of -100 dBm.
pub open spec fn finished(d: Draft, seen: Timestamp) -> WifiNetworkRecord {
    WifiNetworkRecord {
        ssid: match d.ssid {
            Some(name) => name,
            None => "<hidden>"@,
        },
        bssid: d.bssid,
        channel: match d.channel {
            Some(c) => c,
            None => 0,
        },
        frequency: match d.frequency {
            Some(f) => f,
            None => 0,
        },
        signal_strength: match d.signal_strength {
            Some(s) => s,
            None => -100i32,
        },
        security: d.security,
        mode: "Infrastructure"@,
        last_seen: seen,
    }
}

/// The security that follows from `current` and one more line of the block.
///
/// `WPA3` on the line wins outright, and once reached it stays. A line with
/// `RSN` or `WPA2` gives WPA2, or WPA2-Enterprise where it also names
/// `802.1X` or `EAP`. `WPA` and `WEP` count only while the network is still
/// taken to be open.
pub open spec fn upgraded(current: SecurityType, line: Seq<char>) -> SecurityType {
    if mentions(line, "WPA3"@) {
        SecurityType::WPA3
    } else if mentions(line, "RSN"@) || mentions(line, "WPA2"@) {
        if current == SecurityType::WPA3 {
            SecurityType::WPA3
        } else if mentions(line, "802.1X"@) || mentions(line, "EAP"@) {
            SecurityType::WPA2Enterprise
        } else {
            SecurityType::WPA2
        }
    } else if mentions(line, "WPA"@) && current == SecurityType::Open {
        SecurityType::WPA
    } else if mentions(line, "WEP"@) && current == SecurityType::Open {
        SecurityType::WEP
    } else {
        current
    }
}

/// The line opens a block.
pub open spec fn is_block_start(line: Seq<char>) -> bool {
    has_prefix(line, "BSS "@)
}

/// The BSSID on a line that opens a block: what stands between the marker
/// and the first `(`, trimmed.
pub open spec fn block_bssid(line: Seq<char>) -> Seq<char> {
    trimmed(before(after_prefix(line, "BSS "@), "("@))
}

/// The line names the network.
pub open spec fn is_ssid_line(line: Seq<char>) -> bool {
    has_prefix(line, "SSID:"@)
}

/// The line gives the frequency.
pub open spec fn is_freq_line(line: Seq<char>) -> bool {
    !is_ssid_line(line) && has_prefix(line, "freq:"@)
}

/// The line gives the signal strength.
pub open spec fn is_signal_line(line: Seq<char>) -> bool {
    !is_ssid_line(line) && !is_freq_line(line) && has_prefix(line, "signal:"@)
}

/// The line speaks of the network's security.
pub open spec fn is_security_line(line: Seq<char>) -> bool {
    &&& !is_ssid_line(line)
    &&& !is_freq_line(line)
    &&& !is_signal_line(line)
    &&& (mentions(line, "WPA"@) || mentions(line, "RSN"@) || mentions(line, "WEP"@))
}

/// The line gives the channel itself.
pub open spec fn is_channel_line(line: Seq<char>) -> bool {
    &&& !is_ssid_line(line)
    &&& !is_freq_line(line)
    &&& !is_signal_line(line)
    &&& !is_security_line(line)
    &&& has_prefix(line, "DS Parameter set:"@)
    &&& mentions(line, "channel"@)
}

/// The channel that a channel line gives: the number between the first
/// `channel` and the next one, or the end of the line.
pub open spec fn stated_channel(line: Seq<char>) -> Option<u32> {
    match after(line, "channel"@) {
        Some(rest) => parsed_u32(trimmed(before(rest, "channel"@))),
        None => None,
    }
}

/// The frequency that a frequency line gives.
pub open spec fn stated_frequency(line: Seq<char>) -> Option<u32> {
    parsed_u32(trimmed(after_prefix(line, "freq:"@)))
}

/// The signal strength that a signal line gives: the first word behind the
/// marker, read as a number.
pub open spec fn stated_signal(line: Seq<char>) -> Option<i32> {
    parsed_i32(first_word(after_prefix(line, "signal:"@)))
}

/// The channel of a draft after a frequency line: the one that the table
/// has for the frequency, and where it has none, the channel as it was.
pub open spec fn channel_after_frequency(channel: Option<u32>, frequency: Option<u32>) -> Option<
    u32,
> {
    let looked_up = channel_of(
        match frequency {
            Some(f) => f,
            None => 0,
        },
    );
    if looked_up is Some {
        looked_up
    } else {
        channel
    }
}

/// The draft after one more line of its block. The line, which comes
/// trimmed, falls under the first kind that fits and changes the fields of
/// that kind alone; a line of no kind changes nothing.
pub open spec fn noted(d: Draft, line: Seq<char>) -> Draft {
    if is_ssid_line(line) {
        Draft { ssid: Some(trimmed(after_prefix(line, "SSID:"@))), ..d }
    } else if is_freq_line(line) {
        Draft {
            frequency: stated_frequency(line),
            channel: channel_after_frequency(d.channel, stated_frequency(line)),
            ..d
        }
    } else if is_signal_line(line) {
        Draft { signal_strength: stated_signal(line), ..d }
    } else if is_security_line(line) {
        Draft { security: upgraded(d.security, line), ..d }
    } else if is_channel_line(line) {
        Draft { channel: stated_channel(line), ..d }
    } else {
        d
    }
}

/// Where the reading of a report stands: the records finished so far, in
/// the order met, and the draft of the open block, if one is open.
pub struct Reading {
    pub finished: Seq<WifiNetworkRecord>,
    pub open: Option<Draft>,
}

/// The reading before any line.
pub open spec fn start() -> Reading {
    Reading { finished: Seq::empty(), open: None }
}

/// The records of a reading once its open block is finished too. The
/// record with index `k` is finished at the time `clock[k]`.
pub open spec fn closed(r: Reading, clock: Seq<Timestamp>) -> Seq<WifiNetworkRecord> {
    match r.open {
        Some(d) => r.finished.push(finished(d, clock[r.finished.len() as int])),
        None => r.finished,
    }
}

/// The reading after one more line of the report.
pub open spec fn step(r: Reading, raw: Seq<char>, clock: Seq<Timestamp>) -> Reading {
    let line = trimmed(raw);
    if is_block_start(line) {
        Reading { finished: closed(r, clock), open: Some(fresh(block_bssid(line))) }
    } else {
        match r.open {
            Some(d) => Reading { finished: r.finished, open: Some(noted(d, line)) },
            None => r,
        }
    }
}

/// The reading after the given lines, taken in order.
pub open spec fn read(report: Seq<Seq<char>>, clock: Seq<Timestamp>) -> Reading
    decreases report.len(),
{
    if report.len() == 0 {
        start()
    } else {
        step(read(report.drop_last(), clock), report.last(), clock)
    }
}

/// The records of a scan report, in the order in which it lists them. The
/// record with index `k` was finished, and so seen last, at the time
/// `clock[k]`.
pub open spec fn scan_records(report: Seq<char>, clock: Seq<Timestamp>) -> Seq<WifiNetworkRecord> {
    closed(read(lines(report), clock), clock)
}

/// The draft after the lines of its block, taken in order. Each line is
/// trimmed before it is looked at.
pub open spec fn drafted(d: Draft, block: Seq<Seq<char>>) -> Draft
    decreases block.len(),
{
    if block.len() == 0 {
        d
    } else {
        noted(drafted(d, block.drop_last()), trimmed(block.last()))
    }
}

/// How many of the lines open a block.
pub open spec fn block_count(report: Seq<Seq<char>>) -> nat
    decreases report.len(),
{
    if report.len() == 0 {
        0
    } else if is_block_start(trimmed(report.last())) {
        block_count(report.drop_last()) + 1
    } else {
        block_count(report.drop_last())
    }
}

/// The cache after it has taken in the given records, in order: each
/// stands under its BSSID, in place of what stood there before.
pub open spec fn remembered(
    cache: Map<Seq<char>, WifiNetworkRecord>,
    records: Seq<WifiNetworkRecord>,
) -> Map<Seq<char>, WifiNetworkRecord>
    decreases records.len(),
{
    if records.len() == 0 {
        cache
    } else {
        remembered(cache, records.drop_last()).insert(records.last().bssid, records.last())
    }
}

/// What a failed scan is reported as. Where the tool's complaint shows
/// that permission was missing or the interface down, the report says what
/// to try.
pub open spec fn scan_failure(complaint: Seq<char>) -> Seq<char> {
    if mentions(complaint, "Operation not permitted"@) || mentions(
        complaint,
        "Network is down"@,
    ) {
        "Scan failed: "@ + trimmed(complaint)
            + ". Try running with sudo or ensure interface is up."@
    } else {
        "Scan failed: "@ + trimmed(complaint)
    }
}

/// A line changes the security of a draft only where it is a security
/// line, and never its BSSID.
pub proof fn lemma_noted_keeps(d: Draft, line: Seq<char>)
    ensures
        noted(d, line).bssid == d.bssid,
        !is_security_line(line) ==> noted(d, line).security == d.security,
        is_security_line(line) ==> noted(d, line).security == upgraded(d.security, line),
        !is_ssid_line(line) ==> noted(d, line).ssid == d.ssid,
        !is_signal_line(line) ==> noted(d, line).signal_strength == d.signal_strength,
        !is_freq_line(line) ==> noted(d, line).frequency == d.frequency,
        !is_freq_line(line) && !is_channel_line(line) ==> noted(d, line).channel == d.channel,
{
}

/// Reading the same security line twice gives what reading it once gives.
pub proof fn lemma_upgraded_is_idempotent(current: SecurityType, line: Seq<char>)
    ensures
        upgraded(upgraded(current, line), line) == upgraded(current, line),
{
}

/// Once a network counts as WPA3, no line takes that away.
pub proof fn lemma_wpa3_stays(line: Seq<char>)
    ensures
        upgraded(SecurityType::WPA3, line) == SecurityType::WPA3,
{
}

/// A block in which one security line names `WPA3` ends as WPA3, whatever
/// else the block holds and wherever that line stands.
pub proof fn lemma_wpa3_anywhere_wins(d: Draft, block: Seq<Seq<char>>, i: int)
    requires
        0 <= i < block.len(),
        is_security_line(trimmed(block[i])),
        mentions(trimmed(block[i]), "WPA3"@),
    ensures
        drafted(d, block).security == SecurityType::WPA3,
    decreases block.len(),
{
    let earlier = drafted(d, block.drop_last());
    let line = trimmed(block.last());
    lemma_noted_keeps(earlier, line);
    if i == block.len() - 1 {
    } else {
        assert(block.drop_last()[i] == block[i]);
        lemma_wpa3_anywhere_wins(d, block.drop_last(), i);
        lemma_wpa3_stays(line);
    }
}

/// A block without a security line leaves the security of its draft as it
/// was.
pub proof fn lemma_no_security_line(d: Draft, block: Seq<Seq<char>>)
    requires
        forall|j: int| 0 <= j < block.len() ==> !is_security_line(trimmed(#[trigger] block[j])),
    ensures
        drafted(d, block).security == d.security,
    decreases block.len(),
{
    if block.len() > 0 {
        let rest = block.drop_last();
        assert forall|j: int| 0 <= j < rest.len() implies !is_security_line(
            trimmed(#[trigger] rest[j]),
        ) by {
            assert(rest[j] == block[j]);
        }
        lemma_no_security_line(d, rest);
        assert(block.last() == block[block.len() - 1]);
        lemma_noted_keeps(drafted(d, rest), trimmed(block.last()));
    }
}

/// A block that a marker opens and that holds no security line ends as an
/// open network.
pub proof fn lemma_open_without_security_line(bssid: Seq<char>, block: Seq<Seq<char>>)
    requires
        forall|j: int| 0 <= j < block.len() ==> !is_security_line(trimmed(#[trigger] block[j])),
    ensures
        drafted(fresh(bssid), block).security == SecurityType::Open,
{
    lemma_no_security_line(fresh(bssid), block);
}

/// A block that a marker opens and whose one security line is an `RSN` or
/// `WPA2` line that names `802.1X` or `EAP`, and not `WPA3`, ends as
/// WPA2-Enterprise.
pub proof fn lemma_enterprise_line_alone(bssid: Seq<char>, block: Seq<Seq<char>>, i: int)
    requires
        0 <= i < block.len(),
        is_security_line(trimmed(block[i])),
        forall|j: int|
            0 <= j < block.len() && j != i ==> !is_security_line(trimmed(#[trigger] block[j])),
        !mentions(trimmed(block[i]), "WPA3"@),
        mentions(trimmed(block[i]), "RSN"@) || mentions(trimmed(block[i]), "WPA2"@),
        mentions(trimmed(block[i]), "802.1X"@) || mentions(trimmed(block[i]), "EAP"@),
    ensures
        drafted(fresh(bssid), block).security == SecurityType::WPA2Enterprise,
    decreases block.len(),
{
    let rest = block.drop_last();
    let line = trimmed(block.last());
    lemma_noted_keeps(drafted(fresh(bssid), rest), line);
    if i == block.len() - 1 {
        assert forall|j: int| 0 <= j < rest.len() implies !is_security_line(
            trimmed(#[trigger] rest[j]),
        ) by {
            assert(rest[j] == block[j]);
        }
        lemma_no_security_line(fresh(bssid), rest);
    } else {
        assert(rest[i] == block[i]);
        assert forall|j: int| 0 <= j < rest.len() && j != i implies !is_security_line(
            trimmed(#[trigger] rest[j]),
        ) by {
            assert(rest[j] == block[j]);
        }
        lemma_enterprise_line_alone(bssid, rest, i);
        assert(block.last() == block[block.len() - 1]);
    }
}

/// A block that a marker opens and that holds no line with the network's
/// name ends with the name `<hidden>`.
pub proof fn lemma_hidden_without_ssid_line(bssid: Seq<char>, block: Seq<Seq<char>>)
    requires
        forall|j: int| 0 <= j < block.len() ==> !is_ssid_line(trimmed(#[trigger] block[j])),
    ensures
        drafted(fresh(bssid), block).ssid is None,
        forall|seen: Timestamp|
            (#[trigger] finished(drafted(fresh(bssid), block), seen)).ssid == "<hidden>"@,
    decreases block.len(),
{
    if block.len() > 0 {
        let rest = block.drop_last();
        assert forall|j: int| 0 <= j < rest.len() implies !is_ssid_line(
            trimmed(#[trigger] rest[j]),
        ) by {
            assert(rest[j] == block[j]);
        }
        lemma_hidden_without_ssid_line(bssid, rest);
        assert(block.last() == block[block.len() - 1]);
        lemma_noted_keeps(drafted(fresh(bssid), rest), trimmed(block.last()));
    }
}

/// A block that a marker opens and that holds no signal line ends with a
/// signal of -100 dBm.
pub proof fn lemma_weakest_without_signal_line(bssid: Seq<char>, block: Seq<Seq<char>>)
    requires
        forall|j: int| 0 <= j < block.len() ==> !is_signal_line(trimmed(#[trigger] block[j])),
    ensures
        drafted(fresh(bssid), block).signal_strength is None,
        forall|seen: Timestamp|
            (#[trigger] finished(drafted(fresh(bssid), block), seen)).signal_strength == -100,
    decreases block.len(),
{
    if block.len() > 0 {
        let rest = block.drop_last();
        assert forall|j: int| 0 <= j < rest.len() implies !is_signal_line(
            trimmed(#[trigger] rest[j]),
        ) by {
            assert(rest[j] == block[j]);
        }
        lemma_weakest_without_signal_line(bssid, rest);
        assert(block.last() == block[block.len() - 1]);
        lemma_noted_keeps(drafted(fresh(bssid), rest), trimmed(block.last()));
    }
}

/// A frequency line with a frequency that the table does not list leaves
/// the channel as it was.
pub proof fn lemma_unlisted_frequency_keeps_channel(d: Draft, line: Seq<char>)
    requires
        is_freq_line(line),
        stated_frequency(line) matches Some(f) ==> channel_of(f) is None,
    ensures
        noted(d, line).channel == d.channel,
        noted(d, line).frequency == stated_frequency(line),
{
}

/// A finished record has the BSSID and the security of its draft, and was
/// last seen when it was finished.
pub proof fn lemma_finished_takes_over(d: Draft, seen: Timestamp)
    ensures
        finished(d, seen).bssid == d.bssid,
        finished(d, seen).security == d.security,
        finished(d, seen).last_seen == seen,
{
}

/// A line that names `WPA3` is a security line unless it is a line of one
/// of the kinds that come first.
pub proof fn lemma_wpa3_line_is_security_line(line: Seq<char>)
    requires
        mentions(line, "WPA3"@),
        !is_ssid_line(line),
        !is_freq_line(line),
        !is_signal_line(line),
    ensures
        is_security_line(line),
{
    reveal_strlit("WPA3");
    reveal_strlit("WPA");
    assert("WPA3"@.subrange(0, 3) == "WPA"@);
    assert(occurs_at("WPA3"@, "WPA"@, 0));
    lemma_mentions_part(line, "WPA3"@, "WPA"@);
}

/// What a report comes to after a marker line and the lines of its block:
/// the records before the marker are finished, and the open draft is the
/// one that the block's lines make of a fresh one.
pub proof fn lemma_read_block(
    before: Seq<Seq<char>>,
    marker: Seq<char>,
    block: Seq<Seq<char>>,
    clock: Seq<Timestamp>,
)
    requires
        is_block_start(trimmed(marker)),
        forall|j: int| 0 <= j < block.len() ==> !is_block_start(trimmed(#[trigger] block[j])),
    ensures
        read(before.push(marker) + block, clock).finished == closed(read(before, clock), clock),
        read(before.push(marker) + block, clock).open == Some(
            drafted(fresh(block_bssid(trimmed(marker))), block),
        ),
    decreases block.len(),
{
    let all = before.push(marker) + block;
    if block.len() == 0 {
        assert(all == before.push(marker));
        assert(all.drop_last() == before);
    } else {
        let rest = block.drop_last();
        assert(all.drop_last() == before.push(marker) + rest);
        assert(all.last() == block[block.len() - 1]);
        assert forall|j: int| 0 <= j < rest.len() implies !is_block_start(
            trimmed(#[trigger] rest[j]),
        ) by {
            assert(rest[j] == block[j]);
        }
        lemma_read_block(before, marker, rest, clock);
    }
}

/// A report that ends inside a block still gives that block's record: it
/// is the last one, made of the lines that were there.
pub proof fn lemma_trailing_block_is_kept(
    before: Seq<Seq<char>>,
    marker: Seq<char>,
    block: Seq<Seq<char>>,
    clock: Seq<Timestamp>,
)
    requires
        is_block_start(trimmed(marker)),
        forall|j: int| 0 <= j < block.len() ==> !is_block_start(trimmed(#[trigger] block[j])),
    ensures
        closed(read(before.push(marker) + block, clock), clock) == closed(
            read(before, clock),
            clock,
        ).push(
            finished(
                drafted(fresh(block_bssid(trimmed(marker))), block),
                clock[closed(read(before, clock), clock).len() as int],
            ),
        ),
{
    lemma_read_block(before, marker, block, clock);
}

/// Every block of a report gives one record: none is dropped, and nothing
/// else gives one.
pub proof fn lemma_one_record_per_block(report: Seq<Seq<char>>, clock: Seq<Timestamp>)
    ensures
        closed(read(report, clock), clock).len() == block_count(report),
        read(report, clock).open is None ==> block_count(report) == 0,
    decreases report.len(),
{
    if report.len() > 0 {
        lemma_one_record_per_block(report.drop_last(), clock);
    }
}

/// A reading depends on the clock only through the times of the records
/// that it has finished: two clocks that agree on those give one reading.
pub proof fn lemma_read_uses_the_times_of_its_records(
    report: Seq<Seq<char>>,
    clock: Seq<Timestamp>,
    other: Seq<Timestamp>,
)
    requires
        forall|k: int| 0 <= k < read(report, clock).finished.len() ==> clock[k] == other[k],
    ensures
        read(report, clock) == read(report, other),
    decreases report.len(),
{
    if report.len() > 0 {
        let earlier = report.drop_last();
        assert(read(earlier, clock).finished.len() <= read(report, clock).finished.len());
        lemma_read_uses_the_times_of_its_records(earlier, clock, other);
        let r = read(earlier, clock);
        if is_block_start(trimmed(report.last())) && r.open is Some {
            assert(clock[r.finished.len() as int] == other[r.finished.len() as int]);
        }
    }
}

/// The cache holds a key exactly where it held it before or a record
/// brought it.
pub proof fn lemma_remembered_keys(
    cache: Map<Seq<char>, WifiNetworkRecord>,
    records: Seq<WifiNetworkRecord>,
    key: Seq<char>,
)
    ensures
        remembered(cache, records).dom().contains(key) <==> cache.dom().contains(key) || exists|
            i: int,
        |
            0 <= i < records.len() && (#[trigger] records[i]).bssid == key,
    decreases records.len(),
{
    if records.len() > 0 {
        let rest = records.drop_last();
        lemma_remembered_keys(cache, rest, key);
        if exists|i: int| 0 <= i < rest.len() && (#[trigger] rest[i]).bssid == key {
            let i = choose|i: int| 0 <= i < rest.len() && (#[trigger] rest[i]).bssid == key;
            assert(records[i].bssid == key);
        }
        if exists|i: int| 0 <= i < records.len() && (#[trigger] records[i]).bssid == key {
            let i = choose|i: int| 0 <= i < records.len() && (#[trigger] records[i]).bssid == key;
            if i < rest.len() {
                assert(rest[i].bssid == key);
            }
        }
        if records.last().bssid == key {
            assert(records[records.len() - 1].bssid == key);
        }
    }
}

/// Under the BSSID of a record the cache holds that record, unless a later
/// record of the same scan has the same BSSID: what was cached before is
/// replaced.
pub proof fn lemma_remembered_latest(
    cache: Map<Seq<char>, WifiNetworkRecord>,
    records: Seq<WifiNetworkRecord>,
    i: int,
)
    requires
        0 <= i < records.len(),
        forall|j: int| i < j < records.len() ==> (#[trigger] records[j]).bssid != records[i].bssid,
    ensures
        remembered(cache, records).dom().contains(records[i].bssid),
        remembered(cache, records)[records[i].bssid] == records[i],
    decreases records.len(),
{
    if i < records.len() - 1 {
        let rest = records.drop_last();
        assert(rest[i] == records[i]);
        assert forall|j: int| i < j < rest.len() implies (#[trigger] rest[j]).bssid
            != rest[i].bssid by {
            assert(rest[j] == records[j]);
        }
        lemma_remembered_latest(cache, rest, i);
        assert(records[records.len() - 1].bssid != records[i].bssid);
    }
}

/// Under a BSSID that no record has, the cache holds what it held before.
pub proof fn lemma_remembered_others(
    cache: Map<Seq<char>, WifiNetworkRecord>,
    records: Seq<WifiNetworkRecord>,
    key: Seq<char>,
)
    requires
        forall|j: int| 0 <= j < records.len() ==> (#[trigger] records[j]).bssid != key,
    ensures
        remembered(cache, records).dom().contains(key) == cache.dom().contains(key),
        remembered(cache, records)[key] == cache[key],
    decreases records.len(),
{
    if records.len() > 0 {
        let rest = records.drop_last();
        assert forall|j: int| 0 <= j < rest.len() implies (#[trigger] rest[j]).bssid != key by {
            assert(rest[j] == records[j]);
        }
        lemma_remembered_others(cache, rest, key);
        assert(records[records.len() - 1].bssid != key);
    }
}

/// A record for a BSSID that is cached already takes the place of the
/// cached one: the cache has the same keys as before, no more.
pub proof fn lemma_replacing_adds_no_key(
    cache: Map<Seq<char>, WifiNetworkRecord>,
    record: WifiNetworkRecord,
)
    requires
        cache.dom().contains(record.bssid),
    ensures
        remembered(cache, seq![record]).dom() == cache.dom(),
        remembered(cache, seq![record])[record.bssid] == record,
{
    let one = seq![record];
    assert(one.drop_last() == Seq::<WifiNetworkRecord>::empty());
    assert(one.last() == record);
    assert(remembered(cache, one.drop_last()) == cache);
    assert(remembered(cache, one) == cache.insert(record.bssid, record));
    assert(cache.insert(record.bssid, record).dom() =~= cache.dom());
}

} // verus!
