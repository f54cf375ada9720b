//! Conversion of the picked fake time into the delta that the hook applies,
//! and the date picker's bookkeeping.

use vstd::prelude::*;
use crate::hook::spec_fake_ticks;

verus! {

/// Difference between the Unix epoch (1970) and the FILETIME epoch (1601), in
/// 100-ns ticks.
pub const UNIX_TO_FILETIME_TICKS: i64 = 116_444_736_000_000_000i64;

/// Earliest year the picker offers.
pub const MIN_YEAR: i32 = 1970i32;

/// Latest year the picker offers.
pub const MAX_YEAR: i32 = 2200i32;

/// Whether an integer fits in `i64`.
pub open spec fn fits_i64(x: int) -> bool {
    i64::MIN <= x <= i64::MAX
}

/// FILETIME ticks for a count of microseconds since the Unix epoch: ten
/// ticks per microsecond, offset by the epoch difference; `None` when either
/// the product or the sum leaves `i64`.
pub open spec fn spec_unix_micros_to_filetime_ticks(unix_micros: i64) -> Option<i64> {
    let scaled = unix_micros * 10;
    if !fits_i64(scaled) || !fits_i64(UNIX_TO_FILETIME_TICKS + scaled) {
        None
    } else {
        Some((UNIX_TO_FILETIME_TICKS + scaled) as i64)
    }
}

/// Converts Unix microseconds to FILETIME ticks (100-ns since 1601-01-01
/// UTC). Returns `None` if either arithmetic step overflows.
pub fn unix_micros_to_filetime_ticks(unix_micros: i64) -> (ticks: Option<i64>)
    ensures
        ticks == spec_unix_micros_to_filetime_ticks(unix_micros),
{
    match unix_micros.checked_mul(10) {
        Some(v) => UNIX_TO_FILETIME_TICKS.checked_add(v),
        None => None,
    }
}

/// Why a picked fake time could not be turned into a delta.
#[derive(Clone, Copy, Debug, PartialEq, Eq, Structural)]
pub enum ApplyError {
    /// The fake time lies outside the FILETIME range.
    FakeOutOfRange,
    /// The real time lies outside the FILETIME range.
    RealOutOfRange,
}

/// Whether the difference of the two converted times fits in `i64` (true
/// when either conversion fails, since no difference is taken then).
pub open spec fn delta_fits(fake_unix_micros: i64, real_unix_micros: i64) -> bool {
    match (
        spec_unix_micros_to_filetime_ticks(fake_unix_micros),
        spec_unix_micros_to_filetime_ticks(real_unix_micros),
    ) {
        (Some(f), Some(r)) => fits_i64(f - r),
        _ => true,
    }
}

/// The delta to publish for a fake UTC time, given the real UTC time now,
/// both in microseconds since the Unix epoch: the difference of their
/// FILETIME ticks.
pub fn delta_for_fake_time(fake_unix_micros: i64, real_unix_micros: i64) -> (r: Result<i64, ApplyError>)
    requires
        delta_fits(fake_unix_micros, real_unix_micros),
    ensures
        match (
            spec_unix_micros_to_filetime_ticks(fake_unix_micros),
            spec_unix_micros_to_filetime_ticks(real_unix_micros),
        ) {
            (None, _) => r == Err::<i64, ApplyError>(ApplyError::FakeOutOfRange),
            (Some(_), None) => r == Err::<i64, ApplyError>(ApplyError::RealOutOfRange),
            (Some(f), Some(t)) => r == Ok::<i64, ApplyError>((f - t) as i64),
        },
{
    let fake = match unix_micros_to_filetime_ticks(fake_unix_micros) {
        Some(t) => t,
        None => return Err(ApplyError::FakeOutOfRange),
    };
    let now = match unix_micros_to_filetime_ticks(real_unix_micros) {
        Some(t) => t,
        None => return Err(ApplyError::RealOutOfRange),
    };
    Ok(fake - now)
}

/// The delta computed for a fake time makes the hook report exactly that fake
/// time at the instant the real time was taken.
pub proof fn lemma_published_delta_reports_fake_time(fake_unix_micros: i64, real_unix_micros: i64)
    requires
        delta_fits(fake_unix_micros, real_unix_micros),
        spec_unix_micros_to_filetime_ticks(fake_unix_micros) is Some,
        spec_unix_micros_to_filetime_ticks(real_unix_micros) is Some,
    ensures
        ({
            let f = spec_unix_micros_to_filetime_ticks(fake_unix_micros)->0;
            let t = spec_unix_micros_to_filetime_ticks(real_unix_micros)->0;
            spec_fake_ticks(t, (f - t) as i64) == f
        }),
{
}

/// One second of Unix time is ten million ticks: the conversion is affine
/// wherever it is defined.
pub proof fn lemma_unix_micros_affine(a: i64, b: i64)
    requires
        spec_unix_micros_to_filetime_ticks(a) is Some,
        spec_unix_micros_to_filetime_ticks(b) is Some,
    ensures
        spec_unix_micros_to_filetime_ticks(b)->0 - spec_unix_micros_to_filetime_ticks(a)->0
            == 10 * (b - a),
{
}

/// Microseconds from the Unix epoch to 2201-01-01 00:00:00 UTC, the end of
/// the picker's last year.
pub const PICKER_END_UNIX_MICROS: i64 = 7_289_654_400_000_000i64;

/// Microseconds in one day.
pub const DAY_MICROS: i64 = 86_400_000_000i64;

/// The picker's range of years is small enough that conversion never
/// overflows: every instant from 1970 to the end of 2200, give or take a day
/// for the time zone, converts to FILETIME ticks, and the delta between two
/// such instants fits in `i64`.
pub proof fn lemma_picker_range_converts(fake_unix_micros: i64, real_unix_micros: i64)
    requires
        -DAY_MICROS <= fake_unix_micros <= PICKER_END_UNIX_MICROS + DAY_MICROS,
        -DAY_MICROS <= real_unix_micros <= PICKER_END_UNIX_MICROS + DAY_MICROS,
    ensures
        spec_unix_micros_to_filetime_ticks(fake_unix_micros) is Some,
        spec_unix_micros_to_filetime_ticks(real_unix_micros) is Some,
        delta_fits(fake_unix_micros, real_unix_micros),
{
}

/// English name of a month (1 = January); "?" outside 1..=12.
pub open spec fn spec_month_name(month: u32) -> Seq<char> {
    if month == 1 {
        "January"@
    } else if month == 2 {
        "February"@
    } else if month == 3 {
        "March"@
    } else if month == 4 {
        "April"@
    } else if month == 5 {
        "May"@
    } else if month == 6 {
        "June"@
    } else if month == 7 {
        "July"@
    } else if month == 8 {
        "August"@
    } else if month == 9 {
        "September"@
    } else if month == 10 {
        "October"@
    } else if month == 11 {
        "November"@
    } else if month == 12 {
        "December"@
    } else {
        "?"@
    }
}

/// English name of a month (1 = January); "?" outside 1..=12.
pub fn month_name(month: u32) -> (name: &'static str)
    ensures
        name@ == spec_month_name(month),
{
    match month {
        1 => "January",
        2 => "February",
        3 => "March",
        4 => "April",
        5 => "May",
        6 => "June",
        7 => "July",
        8 => "August",
        9 => "September",
        10 => "October",
        11 => "November",
        12 => "December",
        _ => "?",
    }
}

} // verus!
