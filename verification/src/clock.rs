//! Times read from log lines, and the seconds between two of them as chrono counts them.
//!
//! chrono reads a log time to whole seconds; a time written with second `60` (a leap
//! second) it reads as second 59 with a full second more of nanoseconds. A time is kept here
//! as an instant: twice its whole seconds since 1970-01-01 00:00:00, plus one within a leap
//! second. Instants order as chrono's times do.

use vstd::prelude::*;

verus! {

/// Whole seconds read from a log time lie strictly between these bounds.
pub const SECS_BOUND: i64 = 8_796_093_022_208;

/// A nanosecond count from this one on marks a leap second.
pub const LEAP_NANOS: u32 = 1_000_000_000;

/// The instant of a time of `secs` whole seconds and `nanos` nanoseconds.
pub open spec fn instant(secs: int, nanos: int) -> int {
    2 * secs + if nanos >= LEAP_NANOS { 1int } else { 0int }
}

/// The whole seconds of an instant.
pub open spec fn whole_secs(t: int) -> int {
    t / 2
}

/// Whether an instant lies within a leap second.
pub open spec fn in_leap(t: int) -> bool {
    t % 2 == 1
}

/// The seconds from instant `b` to instant `a`, as chrono's `NaiveDateTime` subtraction
/// counts them: the whole seconds between them, one more where `a` is in a leap second and
/// one less where `b` is, and a leap second at one end counted once more where the other
/// end lies later in its own day (for `b`), or earlier (for `a`).
pub open spec fn elapsed(a: int, b: int) -> int {
    let (sa, sb) = (whole_secs(a), whole_secs(b));
    let (ta, tb) = (sa % 86400, sb % 86400);
    let la: int = if in_leap(a) { 1 } else { 0 };
    let lb: int = if in_leap(b) { 1 } else { 0 };
    let adjust: int = if ta > tb && in_leap(b) {
        1
    } else if ta < tb && in_leap(a) {
        -1
    } else {
        0
    };
    sa - sb + la - lb + adjust
}

/// The instant of a time read as `secs` whole seconds and `nanos` nanoseconds.
pub fn instant_of(secs: i64, nanos: u32) -> (r: i64)
    requires
        -SECS_BOUND < secs < SECS_BOUND,
    ensures
        r == instant(secs as int, nanos as int),
{
    if nanos >= LEAP_NANOS {
        2 * secs + 1
    } else {
        2 * secs
    }
}

/// The whole seconds of an instant and whether it lies in a leap second, with the seconds
/// moved by an even multiple of a day so that they are not negative.
fn split_instant(t: i64) -> (r: (i128, i128, bool))
    ensures
        r.0 == whole_secs(t as int) + 6_079_859_496_950_169_600,
        r.1 == whole_secs(t as int) % 86400,
        r.2 == in_leap(t as int),
{
    let x: i128 = t as i128 + 12_159_718_993_900_339_200;
    assert(x >= 0);
    let leap = x % 2 == 1;
    let s: i128 = x / 2;
    let day_secs: i128 = s % 86400;
    assert(s == whole_secs(t as int) + 6_079_859_496_950_169_600);
    assert(leap == in_leap(t as int));
    assert(day_secs == whole_secs(t as int) % 86400);
    (s, day_secs, leap)
}

/// The seconds from instant `b` to instant `a` (see `elapsed`).
pub fn elapsed_seconds(a: i64, b: i64) -> (r: i128)
    ensures
        r == elapsed(a as int, b as int),
{
    let (sa, ta, la) = split_instant(a);
    let (sb, tb, lb) = split_instant(b);
    let mut r: i128 = sa - sb;
    if la {
        r = r + 1;
    }
    if lb {
        r = r - 1;
    }
    if ta > tb && lb {
        r = r + 1;
    } else if ta < tb && la {
        r = r - 1;
    }
    r
}

/// The instant of a time read as (whole seconds, nanoseconds), if one was read.
pub open spec fn read_instant(read: Option<(i64, u32)>) -> Option<i64> {
    match read {
        Some((secs, nanos)) => Some(instant(secs as int, nanos as int) as i64),
        None => None,
    }
}

/// The instant of a time read as (whole seconds, nanoseconds), if one was read.
pub fn instant_read(read: Option<(i64, u32)>) -> (r: Option<i64>)
    requires
        read matches Some((secs, _)) ==> -SECS_BOUND < secs < SECS_BOUND,
    ensures
        r == read_instant(read),
{
    match read {
        Some((secs, nanos)) => Some(instant_of(secs, nanos)),
        None => None,
    }
}

} // verus!
