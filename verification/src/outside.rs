//! The items of this crate whose contracts are believed, not proved.

use vstd::prelude::*;
use rand::Rng;
use crate::scanner::Timestamp;

verus! {

/// `String::push` of the standard library: the character is appended to the
/// end of the string, and nothing before it changes.
pub assume_specification[ String::push ](s: &mut String, ch: char)
    ensures
        final(s)@ == old(s)@.push(ch),
;

/// The current time, read with `chrono::Utc::now` and taken apart with
/// `DateTime::timestamp` and `DateTime::timestamp_subsec_nanos`. Nothing is
/// claimed of the reading. `Utc::now` panics where the system clock stands
/// before the Unix epoch.
#[verifier::external_body]
pub(crate) fn current_time() -> (now: Timestamp) {
    let now = chrono::Utc::now();
    Timestamp { secs: now.timestamp(), nanos: now.timestamp_subsec_nanos() }
}

/// The handle of `rand`'s generator of the current thread. Verus sees
/// nothing inside it.
#[verifier::external_type_specification]
#[verifier::external_body]
pub struct ExThreadRng(rand::rngs::ThreadRng);

/// `rand::thread_rng`: hands out the generator of the current thread.
/// Nothing is claimed of it. It panics where the system gives no entropy to
/// seed the generator with.
pub assume_specification[ rand::thread_rng ]() -> (rng: rand::rngs::ThreadRng)
;

/// One octet drawn with `Rng::gen`. Nothing is claimed of it: every value
/// can come.
#[verifier::external_body]
pub(crate) fn random_octet(rng: &mut rand::rngs::ThreadRng) -> (octet: u8) {
    rng.gen::<u8>()
}

} // verus!
