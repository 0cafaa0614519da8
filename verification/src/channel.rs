//! Channel numbers of the centre frequencies in the 2.4 GHz and 5 GHz bands.

use vstd::prelude::*;

verus! {

/// The channel whose centre frequency is `freq` MHz. The table is closed: a
/// frequency that it does not list has no channel.
pub open spec fn channel_of(freq: u32) -> Option<u32> {
    match freq {
        2412 => Some(1u32),
        2417 => Some(2u32),
        2422 => Some(3u32),
        2427 => Some(4u32),
        2432 => Some(5u32),
        2437 => Some(6u32),
        2442 => Some(7u32),
        2447 => Some(8u32),
        2452 => Some(9u32),
        2457 => Some(10u32),
        2462 => Some(11u32),
        2467 => Some(12u32),
        2472 => Some(13u32),
        2484 => Some(14u32),
        5180 => Some(36u32),
        5200 => Some(40u32),
        5220 => Some(44u32),
        5240 => Some(48u32),
        5260 => Some(52u32),
        5280 => Some(56u32),
        5300 => Some(60u32),
        5320 => Some(64u32),
        5500 => Some(100u32),
        5520 => Some(104u32),
        5540 => Some(108u32),
        5560 => Some(112u32),
        5580 => Some(116u32),
        5600 => Some(120u32),
        5620 => Some(124u32),
        5640 => Some(128u32),
        5660 => Some(132u32),
        5680 => Some(136u32),
        5700 => Some(140u32),
        5720 => Some(144u32),
        5745 => Some(149u32),
        5765 => Some(153u32),
        5785 => Some(157u32),
        5805 => Some(161u32),
        5825 => Some(165u32),
        _ => None,
    }
}

/// `freq` is a centre frequency of the 2.4 GHz band: one of thirteen
/// channels 5 MHz apart from 2412 MHz on, or channel 14 at 2484 MHz.
pub open spec fn in_low_band(freq: u32) -> bool {
    (2412 <= freq <= 2472 && (freq - 2412) % 5 == 0) || freq == 2484
}

/// `freq` is a centre frequency of the 5 GHz band: a channel 20 MHz from the
/// next within one of its three blocks.
pub open spec fn in_high_band(freq: u32) -> bool {
    ||| (5180 <= freq <= 5320 && (freq - 5180) % 20 == 0)
    ||| (5500 <= freq <= 5720 && (freq - 5500) % 20 == 0)
    ||| (5745 <= freq <= 5825 && (freq - 5745) % 20 == 0)
}

/// The table holds the centre frequencies of the two bands and nothing
/// else. In the 5 GHz band the channel number is a fifth of the distance
/// from 5000 MHz; in the 2.4 GHz band channels 1 to 13 count steps of 5 MHz
/// from 2407 MHz, and 2484 MHz is channel 14.
pub proof fn lemma_channel_table(freq: u32)
    ensures
        channel_of(freq) is Some <==> in_low_band(freq) || in_high_band(freq),
        in_high_band(freq) ==> channel_of(freq) == Some(((freq - 5000) / 5) as u32),
        in_low_band(freq) && freq != 2484 ==> channel_of(freq) == Some(((freq - 2407) / 5) as u32),
        freq == 2484 ==> channel_of(freq) == Some(14u32),
{
}

/// No two frequencies share a channel.
pub proof fn lemma_channel_of_is_injective(a: u32, b: u32)
    requires
        channel_of(a) is Some,
        channel_of(a) == channel_of(b),
    ensures
        a == b,
{
}

} // verus!
