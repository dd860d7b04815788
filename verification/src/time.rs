//! Durations and the wall clock, seen as whole nanoseconds.

use std::time::Duration;
use std::time::SystemTime;

use vstd::prelude::*;

verus! {

/// The wall-clock instant type of std.
#[verifier::external_type_specification]
#[verifier::external_body]
pub struct ExSystemTime(SystemTime);

/// Whole seconds of a duration, as `Duration::as_secs` returns them.
pub uninterp spec fn duration_secs(d: Duration) -> u64;

/// Sub-second nanoseconds of a duration, as `Duration::subsec_nanos` returns them.
pub uninterp spec fn duration_subsec_nanos(d: Duration) -> u32;

/// The length of a duration in nanoseconds.
pub open spec fn nanos(d: Duration) -> int {
    duration_secs(d) * 1_000_000_000 + duration_subsec_nanos(d)
}

/// Nanoseconds in the longest duration that seconds of `u64` and a sub-second part can hold.
pub open spec fn max_duration_nanos() -> int {
    u64::MAX * 1_000_000_000 + 999_999_999
}

/// `Clone` of `Duration`, a `Copy` type: the clone is the same duration.
pub assume_specification[ <std::time::Duration as core::clone::Clone>::clone ](d: &Duration) -> (r: Duration)
    ensures
        r == *d,
;

/// `Duration::as_secs`: the number of whole seconds in `d`.
#[verifier::external_body]
fn secs_of(d: &Duration) -> (r: u64)
    ensures
        r == duration_secs(*d),
{
    d.as_secs()
}

/// `Duration::subsec_nanos`: the fractional part of `d` in nanoseconds, which its
/// documentation says is always less than one billion.
#[verifier::external_body]
fn subsec_nanos_of(d: &Duration) -> (r: u32)
    ensures
        r == duration_subsec_nanos(*d),
        r < 1_000_000_000,
{
    d.subsec_nanos()
}

/// `Duration::new`: with fewer than a billion nanoseconds nothing carries into the
/// seconds, so the duration has exactly the given parts.
#[verifier::external_body]
fn new_duration(secs: u64, subsec: u32) -> (r: Duration)
    requires
        subsec < 1_000_000_000,
    ensures
        duration_secs(r) == secs,
        duration_subsec_nanos(r) == subsec,
{
    Duration::new(secs, subsec)
}

/// `SystemTime::now`: the current wall-clock time; nothing is promised of it.
#[verifier::external_body]
fn system_now() -> SystemTime {
    SystemTime::now()
}

/// `SystemTime::duration_since` the Unix epoch; `None` when the clock reads earlier
/// than the epoch. Nothing is promised of the value.
#[verifier::external_body]
fn since_unix_epoch(t: &SystemTime) -> Option<Duration> {
    t.duration_since(std::time::UNIX_EPOCH).ok()
}

/// The text `Duration`'s `Debug` gives, such as `30s` or `500ms`.
pub uninterp spec fn duration_debug(d: Duration) -> Seq<char>;

/// `Duration`'s `Debug`, formatted: its text, such as `30s` or `500ms`.
#[verifier::external_body]
pub(crate) fn duration_text(d: Duration) -> (r: String)
    ensures
        r@ == duration_debug(d),
{
    format!("{d:?}")
}

/// The length of `d` in nanoseconds.
pub fn duration_to_nanos(d: &Duration) -> (r: u128)
    ensures
        r == nanos(*d),
        r <= max_duration_nanos(),
{
    let s = secs_of(d);
    let n = subsec_nanos_of(d);
    assert(s * 1_000_000_000 + n <= max_duration_nanos()) by (nonlinear_arith)
        requires
            s <= u64::MAX,
            n < 1_000_000_000,
    ;
    (s as u128) * 1_000_000_000 + (n as u128)
}

/// The duration of `n` nanoseconds.
pub fn duration_from_nanos(n: u128) -> (r: Duration)
    requires
        n <= max_duration_nanos(),
    ensures
        nanos(r) == n,
{
    let secs = n / 1_000_000_000;
    let sub = n % 1_000_000_000;
    assert(secs <= u64::MAX) by (nonlinear_arith)
        requires
            n <= u64::MAX * 1_000_000_000 + 999_999_999,
            secs == n / 1_000_000_000,
    ;
    new_duration(secs as u64, sub as u32)
}

/// A duration of whole seconds.
pub fn seconds(s: u64) -> (r: Duration)
    ensures
        nanos(r) == s * 1_000_000_000,
{
    new_duration(s, 0)
}

/// A duration of whole milliseconds.
pub fn millis(ms: u64) -> (r: Duration)
    ensures
        nanos(r) == ms * 1_000_000,
{
    let secs = ms / 1000;
    let sub = ((ms % 1000) * 1_000_000) as u32;
    new_duration(secs, sub)
}

/// Nanoseconds past the last whole second of the wall clock, or 0 when the clock
/// reads before the Unix epoch.
pub fn clock_subsec_nanos() -> (r: u32)
    ensures
        r < 1_000_000_000,
{
    let now = system_now();
    match since_unix_epoch(&now) {
        Some(d) => subsec_nanos_of(&d),
        None => 0,
    }
}

} // verus!
