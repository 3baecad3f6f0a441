//! The wall clock.

use vstd::prelude::*;

verus! {

/// Reads the wall clock with `std::time::SystemTime::elapsed` on the epoch.
///
/// Trusted: the time since the epoch is given as whole seconds and the
/// nanoseconds beyond them, which are fewer than a second, or as nothing where
/// the clock stands before the epoch. What the clock shows is left open.
#[verifier::external_body]
fn since_epoch() -> (reading: Option<(u64, u32)>)
    ensures
        reading matches Some((_, nanos)) ==> nanos < 1_000_000_000,
{
    let since = std::time::UNIX_EPOCH.elapsed().ok()?;
    Some((since.as_secs(), since.subsec_nanos()))
}

/// The wall-clock time in milliseconds since the epoch, or `None` where the
/// clock stands before the epoch.
pub(crate) fn now_ms() -> (now: Option<u64>) {
    stamp_of(since_epoch())
}

/// The time stamp for some seconds and nanoseconds: the whole milliseconds, in
/// their lowest 64 bits.
pub open spec fn stamp_model(seconds: u64, nanos: u32) -> int {
    (seconds * 1000 + nanos as int / 1_000_000) % 0x1_0000_0000_0000_0000
}

/// The time stamp for what the clock shows, in seconds and nanoseconds since the
/// epoch, or `None` where it stands before the epoch.
pub fn stamp_of(reading: Option<(u64, u32)>) -> (stamp: Option<u64>)
    ensures
        match reading {
            Some((seconds, nanos)) => stamp matches Some(stamp) && stamp == stamp_model(
                seconds,
                nanos,
            ) && stamp == (1_000_000_000 * seconds + nanos) / 1_000_000 % 0x1_0000_0000_0000_0000,
            None => stamp is None,
        },
{
    match reading {
        Some((seconds, nanos)) => {
            let millis: u128 = seconds as u128 * 1000 + (nanos / 1_000_000) as u128;
            assert(millis as u64 == millis % 0x1_0000_0000_0000_0000) by (bit_vector);
            Some(
                #[verifier::truncate]
                (millis as u64),
            )
        },
        None => None,
    }
}

/// As long as the milliseconds fit, a time stamp is no later than the time and
/// less than a millisecond earlier.
pub proof fn lemma_stamp(seconds: u64, nanos: u32)
    ensures
        stamp_model(seconds, nanos) == (1_000_000_000 * seconds + nanos) / 1_000_000
            % 0x1_0000_0000_0000_0000,
        1_000_000_000 * seconds + nanos < 1_000_000 * 0x1_0000_0000_0000_0000 ==> 1_000_000
            * stamp_model(seconds, nanos) <= 1_000_000_000 * seconds + nanos < 1_000_000 * (
        stamp_model(seconds, nanos) + 1),
{
}

} // verus!
