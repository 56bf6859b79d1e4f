//! Instants of the two tiers, and the conversion between them.
//!
//! The application tier counts whole seconds since the Unix epoch and, beside
//! them, the nanoseconds into that second. The storage tier counts nanoseconds
//! since the Unix epoch in one signed number. Both are UTC.
use vstd::prelude::*;

verus! {

/// Nanoseconds in one second.
pub const NANOS_PER_SECOND: i128 = 1_000_000_000;

/// Unix time of the first second that the storage tier can hold: midnight on
/// 1 January of the year -9999.
pub const MIN_UNIX_SECONDS: i64 = -377_705_116_800;

/// Unix time of the last second that the storage tier can hold: 23:59:59 on
/// 31 December of the year 9999.
pub const MAX_UNIX_SECONDS: i64 = 253_402_300_799;

/// An instant as the application tier holds it.
#[derive(Clone, Copy, Debug, PartialEq, Eq, Structural)]
pub struct ApplicationInstant {
    /// Whole seconds since 1970-01-01T00:00:00Z, rounded down.
    pub seconds: i64,
    /// Nanoseconds since the start of that second.
    pub nanoseconds: u32,
}

/// An instant as the storage tier holds it.
#[derive(Clone, Copy, Debug, PartialEq, Eq, Structural)]
pub struct StorageInstant {
    /// Nanoseconds since 1970-01-01T00:00:00Z.
    pub unix_nanos: i128,
}

/// Why an instant could not be converted.
#[derive(Clone, Copy, Debug, PartialEq, Eq, Structural)]
pub enum TemporalConversionFailure {
    /// The nanoseconds do not lie within one second.
    Malformed,
    /// The instant lies outside the years that the storage tier can hold.
    OutOfRange,
}

impl ApplicationInstant {
    /// The nanoseconds lie within one second.
    pub open spec fn well_formed(self) -> bool {
        self.nanoseconds < NANOS_PER_SECOND
    }

    /// The second is one that the storage tier can hold.
    pub open spec fn in_range(self) -> bool {
        MIN_UNIX_SECONDS <= self.seconds <= MAX_UNIX_SECONDS
    }

    /// The instant has a counterpart in the storage tier.
    pub open spec fn supported(self) -> bool {
        self.well_formed() && self.in_range()
    }

    /// Nanoseconds from the Unix epoch to this instant.
    pub open spec fn unix_nanos(self) -> int {
        self.seconds * NANOS_PER_SECOND + self.nanoseconds
    }

    /// This instant is not later than `other`.
    pub open spec fn not_after(self, other: ApplicationInstant) -> bool {
        self.seconds < other.seconds || (self.seconds == other.seconds && self.nanoseconds
            <= other.nanoseconds)
    }
}

impl StorageInstant {
    /// The instant has a counterpart in the application tier.
    pub open spec fn supported(self) -> bool {
        MIN_UNIX_SECONDS * NANOS_PER_SECOND <= self.unix_nanos < (MAX_UNIX_SECONDS + 1)
            * NANOS_PER_SECOND
    }
}

/// The storage-tier instant that stands for `instant`.
pub open spec fn storage_instant_of(instant: ApplicationInstant) -> Result<
    StorageInstant,
    TemporalConversionFailure,
> {
    if !instant.well_formed() {
        Err(TemporalConversionFailure::Malformed)
    } else if !instant.in_range() {
        Err(TemporalConversionFailure::OutOfRange)
    } else {
        Ok(StorageInstant { unix_nanos: instant.unix_nanos() as i128 })
    }
}

/// The application-tier instant that stands for `instant`.
pub open spec fn application_instant_of(instant: StorageInstant) -> Result<
    ApplicationInstant,
    TemporalConversionFailure,
> {
    if !instant.supported() {
        Err(TemporalConversionFailure::OutOfRange)
    } else {
        Ok(
            ApplicationInstant {
                seconds: (instant.unix_nanos / NANOS_PER_SECOND) as i64,
                nanoseconds: (instant.unix_nanos % NANOS_PER_SECOND) as u32,
            },
        )
    }
}

/// Converts an application-tier instant to the storage tier.
///
/// Every supported instant converts, to the nanosecond. One that is malformed
/// or out of range is an error; it is never replaced by another instant.
pub fn to_storage_instant(instant: ApplicationInstant) -> (result: Result<
    StorageInstant,
    TemporalConversionFailure,
>)
    ensures
        result == storage_instant_of(instant),
        result is Ok <==> instant.supported(),
        result matches Ok(stored) ==> stored.unix_nanos == instant.unix_nanos()
            && stored.supported(),
{
    if instant.nanoseconds >= 1_000_000_000 {
        return Err(TemporalConversionFailure::Malformed);
    }
    if instant.seconds < MIN_UNIX_SECONDS || instant.seconds > MAX_UNIX_SECONDS {
        return Err(TemporalConversionFailure::OutOfRange);
    }
    let whole: i128 = (instant.seconds as i128) * NANOS_PER_SECOND;
    Ok(StorageInstant { unix_nanos: whole + (instant.nanoseconds as i128) })
}

/// Converts a storage-tier instant to the application tier.
///
/// Every supported instant converts, to the nanosecond; any other is an error.
pub fn to_application_instant(instant: StorageInstant) -> (result: Result<
    ApplicationInstant,
    TemporalConversionFailure,
>)
    ensures
        result == application_instant_of(instant),
        result is Ok <==> instant.supported(),
        result matches Ok(shown) ==> shown.unix_nanos() == instant.unix_nanos
            && shown.supported(),
{
    let lowest: i128 = (MIN_UNIX_SECONDS as i128) * NANOS_PER_SECOND;
    let highest: i128 = (MAX_UNIX_SECONDS as i128 + 1) * NANOS_PER_SECOND;
    if instant.unix_nanos < lowest || instant.unix_nanos >= highest {
        return Err(TemporalConversionFailure::OutOfRange);
    }
    let seconds: i128 = match instant.unix_nanos.checked_div_euclid(NANOS_PER_SECOND) {
        Some(quotient) => quotient,
        None => 0,
    };
    let nanoseconds: i128 = match instant.unix_nanos.checked_rem_euclid(NANOS_PER_SECOND) {
        Some(remainder) => remainder,
        None => 0,
    };
    Ok(ApplicationInstant { seconds: seconds as i64, nanoseconds: nanoseconds as u32 })
}

/// An instant that went to the storage tier comes back unchanged.
pub proof fn storage_round_trip(instant: ApplicationInstant)
    requires
        instant.supported(),
    ensures
        storage_instant_of(instant) matches Ok(stored) && application_instant_of(stored) == Ok::<
            ApplicationInstant,
            TemporalConversionFailure,
        >(instant),
{
}

/// An instant that came from the storage tier goes back unchanged.
pub proof fn application_round_trip(instant: StorageInstant)
    requires
        instant.supported(),
    ensures
        application_instant_of(instant) matches Ok(shown) && storage_instant_of(shown) == Ok::<
            StorageInstant,
            TemporalConversionFailure,
        >(instant),
{
}

/// The conversion keeps the order of instants: of two supported instants the
/// earlier one is the earlier one in the storage tier too.
pub proof fn conversion_keeps_order(first: ApplicationInstant, second: ApplicationInstant)
    requires
        first.supported(),
        second.supported(),
    ensures
        first.not_after(second) <==> storage_instant_of(first).unwrap().unix_nanos
            <= storage_instant_of(second).unwrap().unix_nanos,
{
}

/// The conversion is exact to the millisecond, and to the second: both tiers
/// count the same whole milliseconds and the same whole seconds since the epoch.
pub proof fn conversion_keeps_milliseconds(instant: ApplicationInstant)
    requires
        instant.supported(),
    ensures
        storage_instant_of(instant) matches Ok(stored) && stored.unix_nanos / 1_000_000
            == instant.seconds * 1000 + instant.nanoseconds / 1_000_000 && stored.unix_nanos
            / NANOS_PER_SECOND == instant.seconds,
{
}

} // verus!
