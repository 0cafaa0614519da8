//! Hardware addresses in text.

use vstd::prelude::*;

verus! {

/// The digit that writes `n` in base sixteen, in lower case.
pub open spec fn hex_digit(n: int) -> char {
    "0123456789abcdef"@[n]
}

/// The two digits that write an octet in base sixteen.
pub open spec fn hex_pair(octet: u8) -> Seq<char> {
    seq![hex_digit(octet as int / 16), hex_digit(octet as int % 16)]
}

/// The octets in base sixteen, two digits each, with a colon between one
/// octet and the next.
pub open spec fn mac_text(octets: Seq<u8>) -> Seq<char>
    decreases octets.len(),
{
    if octets.len() == 0 {
        Seq::empty()
    } else if octets.len() == 1 {
        hex_pair(octets[0])
    } else {
        mac_text(octets.drop_last()) + seq![':'] + hex_pair(octets.last())
    }
}

/// The octet with its two lowest bits set for an address that is locally
/// administered and names one station: bit 1 set, bit 0 clear.
pub open spec fn administered(octet: u8) -> u8 {
    (octet & 0xFC) | 0x02
}

/// The octets with the first one marked as locally administered.
pub open spec fn as_local(octets: Seq<u8>) -> Seq<u8> {
    octets.update(0, administered(octets[0]))
}

/// An administered octet says "locally administered" and "one station",
/// and keeps the other six bits.
pub proof fn lemma_administered(octet: u8)
    ensures
        administered(octet) & 0x03 == 0x02,
        administered(octet) & 0xFC == octet & 0xFC,
{
    assert(((octet & 0xFC) | 0x02) & 0x03 == 0x02) by (bit_vector);
    assert(((octet & 0xFC) | 0x02) & 0xFC == octet & 0xFC) by (bit_vector);
}

/// An address in text is seventeen characters long for six octets.
pub proof fn lemma_mac_text_len(octets: Seq<u8>)
    ensures
        mac_text(octets).len() == if octets.len() == 0 {
            0
        } else {
            3 * octets.len() - 1
        },
    decreases octets.len(),
{
    if octets.len() > 1 {
        lemma_mac_text_len(octets.drop_last());
    }
}

/// The digit that writes `n` in base sixteen.
fn digit(n: u8) -> (c: char)
    requires
        n < 16,
    ensures
        c == hex_digit(n as int),
{
    proof {
        reveal_strlit("0123456789abcdef");
    }
    let digits: [char; 16] = [
        '0',
        '1',
        '2',
        '3',
        '4',
        '5',
        '6',
        '7',
        '8',
        '9',
        'a',
        'b',
        'c',
        'd',
        'e',
        'f',
    ];
    digits[n as usize]
}

/// The address that the six octets make once the first is marked as
/// locally administered.
pub fn local_mac(octets: [u8; 6]) -> (mac: String)
    ensures
        mac@ == mac_text(as_local(octets@)),
{
    let first: u8 = (octets[0] & 0xFC) | 0x02;
    let ghost marked = as_local(octets@);
    let mut mac = String::new();
    let mut i: usize = 0;
    while i < 6
        invariant
            i <= 6,
            marked == as_local(octets@),
            first == administered(octets@[0]),
            mac@ == mac_text(marked.take(i as int)),
        decreases 6 - i,
    {
        let octet: u8 = if i == 0 {
            first
        } else {
            octets[i]
        };
        proof {
            let read = marked.take(i + 1);
            assert(read.drop_last() == marked.take(i as int));
            assert(read.last() == octet);
            if i == 0 {
                assert(mac@ + hex_pair(octet) == hex_pair(octet));
            }
        }
        if i > 0 {
            mac.push(':');
        }
        mac.push(digit(octet / 16));
        mac.push(digit(octet % 16));
        proof {
            let read = marked.take(i + 1);
            assert(mac@ == mac_text(read));
        }
        i += 1;
    }
    assert(marked.take(6) == marked);
    mac
}

} // verus!
