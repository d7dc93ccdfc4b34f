//! The wall clock.
//!
//! The window engine derives its absolute time bound from "now". What "now"
//! is can only come from outside; every computation that depends on the
//! bound takes it as an argument and is verified for every value of it. The
//! reading itself is split in two: a trusted call reports the clock's raw
//! distance from the Unix epoch — on either side of it, so no clock setting
//! can panic — and a verified function folds that distance into whole
//! seconds.

use vstd::prelude::*;

verus! {

/// Relies on std's `SystemTime::now` and `SystemTime::duration_since`: the
/// current instant's distance from the Unix epoch, as whole seconds and a
/// nanosecond remainder, with the flag telling which side of the epoch the
/// clock stands on. Both arms of `duration_since`'s result are taken, so a
/// clock set before the epoch is reported, not a panic. Nothing can be
/// promised of a clock reading.
#[verifier::external_body]
fn epoch_offset_raw() -> (r: (bool, u64, u32)) {
    match std::time::SystemTime::now().duration_since(std::time::UNIX_EPOCH) {
        Ok(d) => (false, d.as_secs(), d.subsec_nanos()),
        Err(e) => {
            let d = e.duration();
            (true, d.as_secs(), d.subsec_nanos())
        },
    }
}

/// The whole-seconds reading a raw epoch distance names: the distance itself
/// after the epoch, its negation before it — rounded toward earlier instants
/// when a fraction of a second remains — and the nearest representable value
/// where the distance leaves the `i64` range.
pub open spec fn spec_epoch_seconds(before_epoch: bool, secs: u64, nanos: u32) -> int {
    let exact: int = if before_epoch {
        if nanos == 0 {
            -(secs as int)
        } else {
            -(secs as int) - 1
        }
    } else {
        secs as int
    };
    if exact < i64::MIN {
        i64::MIN as int
    } else if exact > i64::MAX {
        i64::MAX as int
    } else {
        exact
    }
}

/// Folds a raw epoch distance into whole seconds since the epoch.
pub fn epoch_seconds_of(before_epoch: bool, secs: u64, nanos: u32) -> (r: i64)
    ensures
        r == spec_epoch_seconds(before_epoch, secs, nanos),
{
    if before_epoch {
        if secs <= i64::MAX as u64 {
            let s = secs as i64;
            if nanos == 0 {
                -s
            } else {
                -s - 1
            }
        } else {
            i64::MIN
        }
    } else {
        if secs <= i64::MAX as u64 {
            secs as i64
        } else {
            i64::MAX
        }
    }
}

/// Whole seconds since the Unix epoch, read from the system clock; total
/// for every clock setting.
pub(crate) fn now_epoch_seconds() -> i64 {
    let (before_epoch, secs, nanos) = epoch_offset_raw();
    epoch_seconds_of(before_epoch, secs, nanos)
}

} // verus!
