//! FILETIME tick values: 100-ns intervals since 1601-01-01 00:00:00 UTC.
//!
//! The hook works on ticks throughout; a FILETIME is the same 64-bit count
//! split into two 32-bit halves.

use vstd::prelude::*;

verus! {

/// A FILETIME: the low and high 32-bit halves of a 64-bit tick count.
#[derive(Clone, Copy, Debug, PartialEq, Eq, Structural)]
pub struct FileTime {
    pub low_date_time: u32,
    pub high_date_time: u32,
}

/// A SYSTEMTIME: a calendar date and time of day, field by field.
#[derive(Clone, Copy, Debug, PartialEq, Eq, Structural)]
pub struct SystemTime {
    pub year: u16,
    pub month: u16,
    pub day_of_week: u16,
    pub day: u16,
    pub hour: u16,
    pub minute: u16,
    pub second: u16,
    pub milliseconds: u16,
}

/// 2^32, the weight of the high half.
pub open spec fn two_pow_32() -> int {
    0x1_0000_0000
}

/// 2^64, the number of distinct 64-bit values.
pub open spec fn two_pow_64() -> int {
    0x1_0000_0000_0000_0000
}

/// The unsigned 64-bit count that a FILETIME holds.
pub open spec fn filetime_count(ft: FileTime) -> int {
    ft.high_date_time * two_pow_32() + ft.low_date_time
}

/// The signed 64-bit reading of an unsigned 64-bit count (two's complement).
pub open spec fn signed_of_count(u: int) -> int {
    if u < 0x8000_0000_0000_0000 {
        u
    } else {
        u - two_pow_64()
    }
}

/// The unsigned 64-bit count with the same bits as the signed value `t`.
pub open spec fn count_of_signed(t: int) -> int {
    if t >= 0 {
        t
    } else {
        t + two_pow_64()
    }
}

/// The signed tick count that a FILETIME holds.
pub open spec fn spec_filetime_to_i64(ft: FileTime) -> i64 {
    signed_of_count(filetime_count(ft)) as i64
}

/// The FILETIME whose halves hold the 64 bits of `ticks`.
pub open spec fn spec_i64_to_filetime(ticks: i64) -> FileTime {
    FileTime {
        low_date_time: (count_of_signed(ticks as int) % two_pow_32()) as u32,
        high_date_time: (count_of_signed(ticks as int) / two_pow_32()) as u32,
    }
}

/// Reads a FILETIME as a signed tick count: the high half is shifted into the
/// upper 32 bits and the low half fills the lower 32 bits.
pub fn filetime_to_i64(ft: FileTime) -> (ticks: i64)
    ensures
        ticks == signed_of_count(filetime_count(ft)),
        ticks == spec_filetime_to_i64(ft),
{
    let h: u32 = ft.high_date_time;
    let l: u32 = ft.low_date_time;
    let ticks: i64 = ((h as i64) << 32) | (l as i64 & 0xFFFF_FFFF);
    assert(ticks == signed_of_count(h * 0x1_0000_0000int + l)) by (bit_vector)
        requires
            ticks == ((h as i64) << 32) | (l as i64 & 0xFFFF_FFFF),
    ;
    ticks
}

/// Splits a signed tick count into the two halves of a FILETIME, keeping all
/// 64 bits.
pub fn i64_to_filetime(ticks: i64) -> (ft: FileTime)
    ensures
        filetime_count(ft) == count_of_signed(ticks as int),
        ft == spec_i64_to_filetime(ticks),
{
    let low: u32 = (ticks & 0xFFFF_FFFF) as u32;
    let high: u32 = ((ticks >> 32) & 0xFFFF_FFFF) as u32;
    assert(high * 0x1_0000_0000int + low == count_of_signed(ticks as int)) by (bit_vector)
        requires
            low == (ticks & 0xFFFF_FFFF) as u32,
            high == ((ticks >> 32) & 0xFFFF_FFFF) as u32,
    ;
    assert(low as int == count_of_signed(ticks as int) % 0x1_0000_0000int
        && high as int == count_of_signed(ticks as int) / 0x1_0000_0000int) by (bit_vector)
        requires
            low == (ticks & 0xFFFF_FFFF) as u32,
            high == ((ticks >> 32) & 0xFFFF_FFFF) as u32,
    ;
    FileTime { low_date_time: low, high_date_time: high }
}


/// Splitting ticks into a FILETIME and reading it back gives the same ticks.
pub proof fn lemma_ticks_filetime_roundtrip(ticks: i64)
    ensures
        spec_filetime_to_i64(spec_i64_to_filetime(ticks)) == ticks,
{
    let c = count_of_signed(ticks as int);
    let ft = spec_i64_to_filetime(ticks);
    assert(filetime_count(ft) == c);
}

/// Reading a FILETIME as ticks and splitting them again gives the same
/// FILETIME.
pub proof fn lemma_filetime_ticks_roundtrip(ft: FileTime)
    ensures
        spec_i64_to_filetime(spec_filetime_to_i64(ft)) == ft,
{
    let c = filetime_count(ft);
    assert(count_of_signed(spec_filetime_to_i64(ft) as int) == c);
    assert(c % two_pow_32() == ft.low_date_time);
    assert(c / two_pow_32() == ft.high_date_time);
}

} // verus!
