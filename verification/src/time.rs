//! Points in time, counted from the Unix epoch.

use std::time::{Duration, SystemTimeError};
use vstd::prelude::*;

verus! {

/// `std::time::SystemTimeError`, which `SystemTime::elapsed` returns when the
/// clock reads earlier than the point it is compared with.
#[verifier::external_type_specification]
#[verifier::external_body]
pub struct ExSystemTimeError(SystemTimeError);

/// `SystemTime::elapsed` on `UNIX_EPOCH`: the time from the epoch to the
/// clock's present reading, or an error where the clock reads earlier than the
/// epoch. Nothing is claimed of the value.
#[verifier::external_body]
fn elapsed_since_epoch() -> Result<Duration, SystemTimeError> {
    std::time::UNIX_EPOCH.elapsed()
}

/// `Duration::as_secs`: the whole seconds of the duration. Nothing is claimed
/// of the value.
pub assume_specification[ Duration::as_secs ](d: &Duration) -> u64;

/// `Duration::subsec_nanos`: the part of the duration below one second, in
/// nanoseconds, which is always less than one billion.
pub assume_specification[ Duration::subsec_nanos ](d: &Duration) -> (nanos: u32)
    ensures
        nanos < 1_000_000_000,
;

/// Nanoseconds in one second.
pub const NANOS_PER_SEC: u32 = 1_000_000_000;

/// Seconds since the Unix epoch, with a fraction: whole seconds and the
/// nanoseconds past them.
#[derive(Debug, Clone, Copy, PartialEq, Eq, Structural)]
pub struct Seconds {
    secs: u64,
    nanos: u32,
}

impl Seconds {
    #[verifier::type_invariant]
    spec fn inv(self) -> bool {
        self.nanos < NANOS_PER_SEC
    }

    /// The whole seconds.
    pub closed spec fn whole(self) -> nat {
        self.secs as nat
    }

    /// The nanoseconds past the whole seconds.
    pub closed spec fn fraction(self) -> nat {
        self.nanos as nat
    }

    /// The point `secs` seconds and `nanos` nanoseconds after the epoch, or
    /// nothing where `nanos` is a full second or more.
    pub fn from_parts(secs: u64, nanos: u32) -> (time: Option<Seconds>)
        ensures
            time is Some <==> nanos < NANOS_PER_SEC,
            time matches Some(t) ==> t.whole() == secs && t.fraction() == nanos,
    {
        if nanos < NANOS_PER_SEC {
            Some(Seconds { secs, nanos })
        } else {
            None
        }
    }

    /// The epoch itself.
    pub fn epoch() -> (time: Seconds)
        ensures
            time.whole() == 0,
            time.fraction() == 0,
    {
        Seconds { secs: 0, nanos: 0 }
    }

    /// The time that a reading of the clock stands for. A reading is the
    /// whole seconds and the nanoseconds that have passed since the epoch, or
    /// nothing where the clock reads earlier than the epoch: that, like a
    /// reading with a full second of nanoseconds, stands for the epoch itself.
    pub fn from_reading(reading: Option<(u64, u32)>) -> (time: Seconds)
        ensures
            match reading {
                Some((secs, nanos)) if nanos < NANOS_PER_SEC => {
                    time.whole() == secs && time.fraction() == nanos
                },
                _ => time.whole() == 0 && time.fraction() == 0,
            },
    {
        match reading {
            Some((secs, nanos)) => match Seconds::from_parts(secs, nanos) {
                Some(time) => time,
                None => Seconds::epoch(),
            },
            None => Seconds::epoch(),
        }
    }

    /// The current time, as the system clock reads since the Unix epoch
    /// (1-1-1970 midnight). A clock that reads earlier than the epoch gives the
    /// epoch.
    pub fn now() -> (time: Seconds)
        ensures
            time.fraction() < NANOS_PER_SEC,
    {
        let reading = match elapsed_since_epoch() {
            Ok(elapsed) => Some((elapsed.as_secs(), elapsed.subsec_nanos())),
            Err(_) => None,
        };
        Seconds::from_reading(reading)
    }

    /// The whole seconds, without the fraction.
    pub fn trunc(&self) -> (secs: u64)
        ensures
            secs == self.whole(),
    {
        self.secs
    }

    /// The nanoseconds past the whole seconds: less than one billion.
    pub fn subsec_nanos(&self) -> (nanos: u32)
        ensures
            nanos == self.fraction(),
            nanos < NANOS_PER_SEC,
    {
        proof {
            use_type_invariant(self);
        }
        self.nanos
    }
}

impl Default for Seconds {
    /// The current time.
    fn default() -> (time: Seconds)
        ensures
            time.fraction() < NANOS_PER_SEC,
    {
        Seconds::now()
    }
}

} // verus!
