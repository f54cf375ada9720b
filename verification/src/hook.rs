//! What the injected hook computes on every hooked time call: the real time
//! shifted by the published delta.

use vstd::prelude::*;
use crate::ticks::{
    FileTime, SystemTime, filetime_to_i64, i64_to_filetime, spec_filetime_to_i64,
    spec_i64_to_filetime, lemma_filetime_ticks_roundtrip,
};

verus! {

/// NTSTATUS returned when the output pointer is null (0xC0000005).
pub const STATUS_ACCESS_VIOLATION: i32 = -1073741819i32;

/// `x` clamped into the range of `i64`.
pub open spec fn saturate_i64(x: int) -> i64 {
    if x > i64::MAX {
        i64::MAX
    } else if x < i64::MIN {
        i64::MIN
    } else {
        x as i64
    }
}

/// `a + b`, clamped at the bounds of `i64` instead of overflowing.
pub fn saturating_add_i64(a: i64, b: i64) -> (r: i64)
    ensures
        r == saturate_i64(a + b),
{
    match a.checked_add(b) {
        Some(v) => v,
        None => if b > 0 {
            i64::MAX
        } else {
            i64::MIN
        },
    }
}

/// The delta the hook applies: the published one, or zero when none can be
/// read.
pub fn delta(published: Option<i64>) -> (d: i64)
    ensures
        d == match published {
            Some(v) => v,
            None => 0i64,
        },
{
    match published {
        Some(v) => v,
        None => 0,
    }
}

/// The faked tick count: the real one plus the delta, saturating.
pub open spec fn spec_fake_ticks(actual: i64, delta: i64) -> i64 {
    saturate_i64(actual + delta)
}

/// Shifts a real tick count by the delta, saturating at the bounds of `i64`.
pub fn fake_ticks(actual: i64, delta: i64) -> (t: i64)
    ensures
        t == spec_fake_ticks(actual, delta),
{
    saturating_add_i64(actual, delta)
}

/// The faked FILETIME for a real FILETIME and a delta.
pub open spec fn spec_fake_filetime(actual: FileTime, delta: i64) -> FileTime {
    spec_i64_to_filetime(spec_fake_ticks(spec_filetime_to_i64(actual), delta))
}

/// Shifts a real FILETIME by the delta: read as ticks, add with saturation,
/// split again.
pub fn fake_filetime(actual: FileTime, delta: i64) -> (ft: FileTime)
    ensures
        ft == spec_fake_filetime(actual, delta),
{
    let ticks = fake_ticks(filetime_to_i64(actual), delta);
    i64_to_filetime(ticks)
}

/// What the hooked `NtQuerySystemTime` does once the real call returned.
#[derive(Clone, Copy, Debug, PartialEq, Eq, Structural)]
pub enum NtQueryOutcome {
    /// Return this status and leave the output untouched.
    Fail(i32),
    /// Store these ticks in the output and return success (0).
    Write(i64),
}

/// Decides the hooked `NtQuerySystemTime` result from the real call's status
/// and ticks: a failing status is passed through, otherwise the shifted ticks
/// are written.
pub fn nt_query_system_time_outcome(status: i32, actual: i64, delta: i64) -> (o: NtQueryOutcome)
    ensures
        status != 0 ==> o == NtQueryOutcome::Fail(status),
        status == 0 ==> o == NtQueryOutcome::Write(spec_fake_ticks(actual, delta)),
{
    if status != 0 {
        NtQueryOutcome::Fail(status)
    } else {
        NtQueryOutcome::Write(fake_ticks(actual, delta))
    }
}

/// The local time the hooked `GetLocalTime` reports: the time-zone
/// conversion of the faked UTC time, or the UTC time itself when that
/// conversion failed.
pub fn local_or_utc(utc: SystemTime, tz_local: Option<SystemTime>) -> (st: SystemTime)
    ensures
        st == match tz_local {
            Some(l) => l,
            None => utc,
        },
{
    match tz_local {
        Some(l) => l,
        None => utc,
    }
}

/// Outcome of installing the hooks, per hooked function.
#[derive(Debug)]
pub struct InstallReport {
    pub installed: Vec<&'static str>,
    pub failed: Vec<(&'static str, String)>,
}

impl Default for InstallReport {
    fn default() -> (r: Self)
        ensures
            r.installed@.len() == 0,
            r.failed@.len() == 0,
    {
        InstallReport { installed: Vec::new(), failed: Vec::new() }
    }
}

impl InstallReport {
    /// Records the outcome for one hooked function: its name goes to
    /// `installed` on success, and with the reason to `failed` otherwise.
    pub fn record(&mut self, name: &'static str, outcome: Result<(), String>)
        ensures
            match outcome {
                Ok(()) => {
                    &&& final(self).installed@ == old(self).installed@.push(name)
                    &&& final(self).failed@ == old(self).failed@
                },
                Err(reason) => {
                    &&& final(self).installed@ == old(self).installed@
                    &&& final(self).failed@ == old(self).failed@.push((name, reason))
                },
            },
    {
        match outcome {
            Ok(()) => self.installed.push(name),
            Err(reason) => self.failed.push((name, reason)),
        }
    }
}

/// A zero delta leaves the time unchanged: once the controller writes zero,
/// the hooked process sees real time again.
pub proof fn lemma_zero_delta_is_real_time(actual: FileTime)
    ensures
        spec_fake_filetime(actual, 0) == actual,
        forall|t: i64| spec_fake_ticks(t, 0) == t,
{
    lemma_filetime_ticks_roundtrip(actual);
}

/// Every hooked function shifts by the same amount: the faked ticks are the
/// real ticks plus the delta whenever that sum fits in `i64`.
pub proof fn lemma_fake_ticks_shift(actual: i64, delta: i64)
    requires
        i64::MIN <= actual + delta <= i64::MAX,
    ensures
        spec_fake_ticks(actual, delta) - actual == delta,
{
}

} // verus!
