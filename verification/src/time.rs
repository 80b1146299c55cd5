//! Wall-clock instants with nanosecond resolution.

use vstd::prelude::*;
use std::time::{Duration, SystemTime};

verus! {

/// Number of nanoseconds that one second of a `Duration` adds to a `Time`.
///
/// This is the scale factor the `+` operator on `Time` applies to the whole
/// seconds of its `Duration` operand.
pub const NANOS_PER_DURATION_SEC: u64 = 100_000_000_000u64;

/// Nanoseconds per second of the wall clock.
pub const NANOS_PER_SEC: u64 = 1_000_000_000u64;

#[verifier::external_type_specification]
#[verifier::external_body]
pub struct ExSystemTime(SystemTime);

/// An instant, counted in nanoseconds since the Unix epoch.
#[derive(Clone, Copy, Debug, PartialEq, Eq, PartialOrd, Ord, Hash, Structural)]
pub struct Time {
    pub ns: u64,
}

/// What `std::time::Duration::as_secs` returns for `d`: its whole seconds.
pub uninterp spec fn duration_whole_secs(d: Duration) -> u64;

/// What `std::time::Duration::subsec_nanos` returns for `d`: the nanoseconds
/// beyond its whole seconds.
pub uninterp spec fn duration_subsec_nanos(d: Duration) -> u32;

/// Calls `Duration::as_secs`; the result is named `duration_whole_secs(d)`.
#[verifier::external_body]
fn whole_secs(d: &Duration) -> (r: u64)
    ensures
        r == duration_whole_secs(*d),
{
    d.as_secs()
}

/// Calls `Duration::subsec_nanos`, which std documents to be below one
/// second's worth of nanoseconds; the result is named
/// `duration_subsec_nanos(d)`.
#[verifier::external_body]
fn subsec_nanos(d: &Duration) -> (r: u32)
    ensures
        r == duration_subsec_nanos(*d),
        r < 1_000_000_000,
{
    d.subsec_nanos()
}

/// Calls `SystemTime::now`. The reading depends on the machine's clock, so
/// nothing is stated of it.
#[verifier::external_body]
fn system_now() -> SystemTime {
    SystemTime::now()
}

/// Calls `SystemTime::duration_since(UNIX_EPOCH)`: `None` where the clock
/// stands before the epoch. Nothing is stated of the duration, which depends
/// on the clock reading.
#[verifier::external_body]
fn since_unix_epoch(t: &SystemTime) -> Option<Duration> {
    match t.duration_since(std::time::UNIX_EPOCH) {
        Ok(d) => Some(d),
        Err(_) => None,
    }
}

/// The nanosecond count of an instant that lies `secs` whole seconds and
/// `nanos` nanoseconds after the epoch, or `None` where it exceeds `u64`.
pub open spec fn epoch_nanos(secs: u64, nanos: u32) -> Option<u64> {
    let total = secs * NANOS_PER_SEC + nanos;
    if total <= u64::MAX {
        Some(total as u64)
    } else {
        None
    }
}

impl Time {
    /// The instant `ns` nanoseconds after the epoch.
    pub fn new(ns: u64) -> (t: Time)
        ensures
            t.ns == ns,
    {
        Time { ns }
    }

    /// The epoch itself, the smallest instant.
    pub fn min() -> (t: Time)
        ensures
            t.ns == 0,
    {
        Time::new(0)
    }

    /// The instant `secs` seconds (each counted as `NANOS_PER_DURATION_SEC`
    /// nanoseconds) and `nanos` nanoseconds after `self`.
    pub fn after(self, secs: u64, nanos: u32) -> (t: Time)
        requires
            self.ns + secs * NANOS_PER_DURATION_SEC + nanos <= u64::MAX,
        ensures
            t.ns == self.ns + secs * NANOS_PER_DURATION_SEC + nanos,
    {
        assert(secs * NANOS_PER_DURATION_SEC <= u64::MAX) by (nonlinear_arith)
            requires
                secs * NANOS_PER_DURATION_SEC + nanos + self.ns <= u64::MAX,
        ;
        let d = secs * NANOS_PER_DURATION_SEC + nanos as u64;
        Time::new(self.ns + d)
    }

    /// Converts a reading of the wall clock (whole seconds and nanoseconds
    /// since the epoch) into an instant: `Time::min()` where the reading is
    /// missing or too large to count in nanoseconds.
    pub fn from_epoch_reading(reading: Option<(u64, u32)>) -> (t: Time)
        ensures
            t.ns == match reading {
                Some((s, n)) => match epoch_nanos(s, n) {
                    Some(v) => v,
                    None => 0,
                },
                None => 0,
            },
    {
        match reading {
            None => Time::min(),
            Some((secs, nanos)) => {
                match secs.checked_mul(NANOS_PER_SEC) {
                    None => {
                        assert(secs * NANOS_PER_SEC + nanos > u64::MAX);
                        Time::min()
                    },
                    Some(whole) => match whole.checked_add(nanos as u64) {
                        None => Time::min(),
                        Some(total) => Time::new(total),
                    },
                }
            },
        }
    }

    /// The current wall-clock time; `Time::min()` where the clock cannot be
    /// read as an instant after the epoch. The reading itself depends on the
    /// machine, so the contract only ties the result to it through
    /// `from_epoch_reading`.
    pub fn now() -> (t: Time) {
        let clock = system_now();
        let reading = match since_unix_epoch(&clock) {
            None => None,
            Some(d) => Some((whole_secs(&d), subsec_nanos(&d))),
        };
        Time::from_epoch_reading(reading)
    }
}

impl std::ops::Add<Duration> for Time {
    type Output = Time;

    /// The instant `d` after `self`, each whole second of `d` counting as
    /// `NANOS_PER_DURATION_SEC` nanoseconds.
    fn add(self, d: Duration) -> (t: Time) {
        let secs = whole_secs(&d);
        let nanos = subsec_nanos(&d);
        self.after(secs, nanos)
    }
}

impl vstd::std_specs::ops::AddSpecImpl<Duration> for Time {
    open spec fn obeys_add_spec() -> bool {
        true
    }

    open spec fn add_req(self, d: Duration) -> bool {
        self.ns + duration_whole_secs(d) * NANOS_PER_DURATION_SEC + duration_subsec_nanos(d)
            <= u64::MAX
    }

    open spec fn add_spec(self, d: Duration) -> Time {
        Time {
            ns: (self.ns + duration_whole_secs(d) * NANOS_PER_DURATION_SEC
                + duration_subsec_nanos(d)) as u64,
        }
    }
}

} // verus!
