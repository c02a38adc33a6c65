use vstd::prelude::*;

use std::time::SystemTime;

verus! {

/// Nanoseconds in one second.
pub const NANOS_PER_SEC: u32 = 1_000_000_000;

/// A span of time, kept as whole seconds and the nanoseconds beyond them,
/// the way the standard library's `Duration` keeps it. Its view is the
/// total number of nanoseconds.
#[derive(Clone, Copy, Debug, PartialEq, Eq, Structural)]
pub struct Duration {
    secs: u64,
    nanos: u32,
}

impl View for Duration {
    type V = nat;

    closed spec fn view(&self) -> nat {
        (self.secs * 1_000_000_000 + self.nanos) as nat
    }
}

impl Duration {
    #[verifier::type_invariant]
    spec fn well_formed(self) -> bool {
        self.nanos < 1_000_000_000
    }

    /// The empty duration.
    pub fn zero() -> (r: Duration)
        ensures
            r@ == 0,
    {
        Duration { secs: 0, nanos: 0 }
    }

    /// A duration of `secs` whole seconds.
    pub fn from_secs(secs: u64) -> (r: Duration)
        ensures
            r@ == secs * 1_000_000_000,
    {
        Duration { secs, nanos: 0 }
    }

    /// A duration of `millis` milliseconds.
    pub fn from_millis(millis: u64) -> (r: Duration)
        ensures
            r@ == millis * 1_000_000,
    {
        let secs = millis / 1000;
        let rest = millis % 1000;
        let nanos: u32 = (rest * 1_000_000) as u32;
        Duration { secs, nanos }
    }

    /// A duration of `micros` microseconds.
    pub fn from_micros(micros: u64) -> (r: Duration)
        ensures
            r@ == micros * 1000,
    {
        let secs = micros / 1_000_000;
        let rest = micros % 1_000_000;
        let nanos: u32 = (rest * 1000) as u32;
        Duration { secs, nanos }
    }

    /// The whole seconds in this duration.
    pub fn as_secs(&self) -> (r: u64)
        ensures
            r == self@ / 1_000_000_000,
    {
        proof {
            use_type_invariant(self);
        }
        self.secs
    }

    /// The nanoseconds beyond the whole seconds.
    pub fn subsec_nanos(&self) -> (r: u32)
        ensures
            r == self@ % 1_000_000_000,
    {
        proof {
            use_type_invariant(self);
        }
        self.nanos
    }

    /// The whole microseconds in this duration.
    pub fn as_micros(&self) -> (r: u128)
        ensures
            r == self@ / 1000,
    {
        proof {
            use_type_invariant(self);
        }
        self.secs as u128 * 1_000_000 + (self.nanos / 1000) as u128
    }

    /// The whole milliseconds in this duration.
    pub fn as_millis(&self) -> (r: u128)
        ensures
            r == self@ / 1_000_000,
    {
        proof {
            use_type_invariant(self);
        }
        self.secs as u128 * 1000 + (self.nanos / 1_000_000) as u128
    }
}

/// A point in time, as microseconds since the UNIX epoch.
#[derive(Debug, Clone, Copy, PartialEq, Eq, Structural, PartialOrd, Ord, Hash)]
pub struct Time(pub u64);

/// The whole microseconds of a duration, cut to 64 bits.
pub open spec fn duration_micros_u64(d: Duration) -> u64 {
    (d@ / 1000) as u64
}

/// Adding a duration to a point in time, wrapping around at the end of the
/// 64-bit range of microseconds.
pub open spec fn time_plus(t: Time, d: Duration) -> Time {
    Time(((t.0 + duration_micros_u64(d)) % 0x1_0000_0000_0000_0000) as u64)
}

impl Time {
    /// The microseconds since the UNIX epoch.
    pub fn as_micros(self) -> (r: u64)
        ensures
            r == self.0,
    {
        self.0
    }

    /// This point in time moved forward by `duration`, wrapping around at
    /// the end of the representable range.
    pub fn plus(self, duration: Duration) -> (r: Time)
        ensures
            r == time_plus(self, duration),
    {
        let micros = duration.as_micros();
        let truncated = micros as u64;
        Time(self.0.wrapping_add(truncated))
    }

    /// This point in time moved forward by `duration`, or `None` when the
    /// result does not fit.
    pub fn checked_add(self, duration: Duration) -> (r: Option<Time>)
        ensures
            r matches Some(t) ==> t.0 == self.0 + duration@ / 1000,
            r is None <==> self.0 + duration@ / 1000 > u64::MAX,
    {
        let duration_micros = duration.as_micros();
        if duration_micros > u64::MAX as u128 {
            return None;
        }
        match self.0.checked_add(duration_micros as u64) {
            Some(micros) => Some(Time(micros)),
            None => None,
        }
    }

    /// The distance from `earlier` to this point: `Ok` when `earlier` is not
    /// later than this point, `Err` with the reverse distance otherwise.
    pub fn duration_since(self, earlier: Time) -> (r: Result<Duration, Duration>)
        ensures
            self.0 >= earlier.0 ==> (r matches Ok(d) && d@ == (self.0 - earlier.0) * 1000),
            self.0 < earlier.0 ==> (r matches Err(d) && d@ == (earlier.0 - self.0) * 1000),
    {
        if self.0 >= earlier.0 {
            Ok(Duration::from_micros(self.0 - earlier.0))
        } else {
            Err(Duration::from_micros(earlier.0 - self.0))
        }
    }
}

#[verifier::external_type_specification]
#[verifier::external_body]
pub struct ExSystemTime(SystemTime);

/// `SystemTime::clone`: `SystemTime` is `Copy`, so the clone is the same
/// reading.
pub assume_specification[ <std::time::SystemTime as std::clone::Clone>::clone ](t: &std::time::SystemTime) -> (r: std::time::SystemTime)
    ensures
        r == *t,
;

/// The nanoseconds from the UNIX epoch to a point of the system clock, when
/// it is not before the epoch.
pub uninterp spec fn epoch_offset(t: SystemTime) -> Option<nat>;

/// `SystemTime::duration_since(UNIX_EPOCH)`: the time from the epoch to `t`
/// as whole seconds and the nanoseconds beyond them, or `None` when `t` is
/// before the epoch.
#[verifier::external_body]
fn since_epoch(t: &SystemTime) -> (r: Option<(u64, u32)>)
    ensures
        r is None <==> epoch_offset(*t) is None,
        r matches Some((secs, nanos)) ==> nanos < NANOS_PER_SEC && epoch_offset(*t) == Some((
            secs * 1_000_000_000 + nanos) as nat,
        ),
{
    match t.duration_since(SystemTime::UNIX_EPOCH) {
        Ok(d) => Some((d.as_secs(), d.subsec_nanos())),
        Err(_) => None,
    }
}

/// What `now >= deadline` gives for two readings of the system clock.
pub uninterp spec fn at_or_after(now: SystemTime, deadline: SystemTime) -> bool;

/// `SystemTime`'s `>=`: whether `now` is not before `deadline`, at the full
/// precision of the platform's clock. Where both readings lie after the
/// epoch, that is the order of their offsets from it.
#[verifier::external_body]
pub(crate) fn is_at_or_after(now: &SystemTime, deadline: &SystemTime) -> (r: bool)
    ensures
        r == at_or_after(*now, *deadline),
        match (epoch_offset(*now), epoch_offset(*deadline)) {
            (Some(a), Some(b)) => r == (a >= b),
            _ => true,
        },
{
    *now >= *deadline
}

/// `UNIX_EPOCH.checked_add(Duration::from_micros(micros))`: the point of the
/// system clock `micros` microseconds after the epoch, or `None` where the
/// platform's clock cannot represent it (the standard library documents the
/// range of `SystemTime` as platform-specific).
#[verifier::external_body]
fn epoch_plus_micros(micros: u64) -> (r: Option<SystemTime>)
    ensures
        r matches Some(t) ==> epoch_offset(t) == Some((micros * 1000) as nat),
{
    SystemTime::UNIX_EPOCH.checked_add(std::time::Duration::from_micros(micros))
}

/// The point in time of a clock reading that lies `offset` nanoseconds after
/// the epoch (the epoch itself for one before it), cut to 64 bits of
/// microseconds.
pub open spec fn time_at_offset(offset: Option<nat>) -> Time {
    match offset {
        Some(nanos) => Time(((nanos / 1000) % 0x1_0000_0000_0000_0000) as u64),
        None => Time(0),
    }
}

impl Time {
    /// The point in time that lies `offset` after the epoch, given as whole
    /// seconds and nanoseconds; the epoch when there is no offset.
    pub fn from_epoch_offset(offset: Option<(u64, u32)>) -> (r: Time)
        requires
            offset matches Some((_, nanos)) ==> nanos < NANOS_PER_SEC,
        ensures
            r == time_at_offset(match offset {
                Some((secs, nanos)) => Some((secs * 1_000_000_000 + nanos) as nat),
                None => None,
            }),
    {
        match offset {
            Some((secs, nanos)) => {
                let micros: u128 = secs as u128 * 1_000_000 + (nanos / 1000) as u128;
                assert((secs * 1_000_000_000 + nanos) / 1000 == secs * 1_000_000 + nanos / 1000) by (nonlinear_arith)
                    requires
                        nanos < 1_000_000_000,
                ;
                assert(micros as u64 == micros % 0x1_0000_0000_0000_0000) by (bit_vector);
                Time(micros as u64)
            },
            None => Time(0),
        }
    }

    /// The point in time of a reading of the system clock; the epoch for one
    /// before the epoch.
    pub fn from_system_time(time: SystemTime) -> (r: Time)
        ensures
            r == time_at_offset(epoch_offset(time)),
    {
        Self::from_epoch_offset(since_epoch(&time))
    }

    /// This point in time as a reading of the system clock, or `None` where
    /// the platform's clock cannot represent it.
    pub fn to_system_time(self) -> (r: Option<SystemTime>)
        ensures
            r matches Some(t) ==> epoch_offset(t) == Some((self.0 * 1000) as nat),
    {
        epoch_plus_micros(self.0)
    }
}

/// A point in time read back from the system clock reading it was turned
/// into is the same point.
pub proof fn law_system_time_roundtrip(t: Time, clock: SystemTime)
    requires
        epoch_offset(clock) == Some((t.0 * 1000) as nat),
    ensures
        time_at_offset(epoch_offset(clock)) == t,
{
    assert((t.0 * 1000) / 1000 == t.0) by (nonlinear_arith);
}

impl vstd::std_specs::ops::AddSpecImpl<Duration> for Time {
    open spec fn obeys_add_spec() -> bool {
        true
    }

    open spec fn add_req(self, rhs: Duration) -> bool {
        true
    }

    open spec fn add_spec(self, rhs: Duration) -> Time {
        time_plus(self, rhs)
    }
}

impl core::ops::Add<Duration> for Time {
    type Output = Time;

    fn add(self, rhs: Duration) -> Time {
        self.plus(rhs)
    }
}

} // verus!
