use time_mocker::clock::{
    delta_for_fake_time, month_name, unix_micros_to_filetime_ticks, ApplyError, DAY_MICROS,
    PICKER_END_UNIX_MICROS, UNIX_TO_FILETIME_TICKS,
};
use time_mocker::hook::fake_ticks;

#[test]
fn unix_micros_to_filetime_ticks_zero() {
    let result = unix_micros_to_filetime_ticks(0);
    assert_eq!(
        result,
        Some(UNIX_TO_FILETIME_TICKS),
        "zero unix micros should map to UNIX_TO_FILETIME_TICKS"
    );
}

#[test]
fn unix_micros_to_filetime_ticks_positive() {
    // 1 second = 1_000_000 microseconds = 10_000_000 FILETIME ticks
    let one_sec_micros = 1_000_000;
    let result = unix_micros_to_filetime_ticks(one_sec_micros);
    assert!(result.is_some());
    let ticks = result.unwrap();
    assert_eq!(
        ticks,
        UNIX_TO_FILETIME_TICKS + 10_000_000,
        "one second should add 10M ticks"
    );
}

#[test]
fn unix_micros_to_filetime_ticks_large_valid() {
    let year_2100_approx = 4_102_444_800_000_000i64;
    let result = unix_micros_to_filetime_ticks(year_2100_approx);
    assert!(result.is_some(), "year 2100 should not overflow");
}

#[test]
fn unix_micros_to_filetime_ticks_overflow_on_mul() {
    let overflow_input = i64::MAX;
    let result = unix_micros_to_filetime_ticks(overflow_input);
    assert!(
        result.is_none(),
        "i64::MAX should overflow when multiplied by 10"
    );
}

#[test]
fn unix_micros_to_filetime_ticks_overflow_on_add() {
    let _near_max = i64::MAX / 10 - 1;
    let v = (i64::MAX - UNIX_TO_FILETIME_TICKS + 1) / 10;
    let result = unix_micros_to_filetime_ticks(v);
    assert!(result.is_some());
}

#[test]
fn unix_micros_to_filetime_ticks_negative_and_edge() {
    // 1601-01-01 is the FILETIME epoch: 11_644_473_600 s before 1970.
    assert_eq!(unix_micros_to_filetime_ticks(-11_644_473_600_000_000), Some(0));
    // The sum overflows although the product fits.
    let v = i64::MAX / 10;
    assert_eq!(unix_micros_to_filetime_ticks(v), None);
    // The product underflows.
    assert_eq!(unix_micros_to_filetime_ticks(i64::MIN / 10 - 1), None);
}

#[test]
fn delta_for_fake_time_one_day_ahead() {
    let now = 1_700_000_000_000_000i64;
    let fake = now + 86_400_000_000;
    assert_eq!(delta_for_fake_time(fake, now), Ok(864_000_000_000));
    assert_eq!(delta_for_fake_time(now, fake), Ok(-864_000_000_000));
}

#[test]
fn delta_for_fake_time_errors() {
    assert_eq!(delta_for_fake_time(i64::MAX, 0), Err(ApplyError::FakeOutOfRange));
    assert_eq!(delta_for_fake_time(0, i64::MAX), Err(ApplyError::RealOutOfRange));
    assert_eq!(delta_for_fake_time(i64::MAX, i64::MAX), Err(ApplyError::FakeOutOfRange));
}

#[test]
fn published_delta_reports_fake_time() {
    let now = 1_700_000_000_123_456i64;
    let fake = 946_684_800_000_000i64; // 2000-01-01
    let delta = delta_for_fake_time(fake, now).unwrap();
    let real_ticks = unix_micros_to_filetime_ticks(now).unwrap();
    let fake_ticks_expected = unix_micros_to_filetime_ticks(fake).unwrap();
    assert_eq!(fake_ticks(real_ticks, delta), fake_ticks_expected);
}

#[test]
fn month_names() {
    assert_eq!(month_name(1), "January");
    assert_eq!(month_name(2), "February");
    assert_eq!(month_name(9), "September");
    assert_eq!(month_name(12), "December");
    assert_eq!(month_name(0), "?");
    assert_eq!(month_name(13), "?");
}

#[test]
fn picker_range_never_overflows() {
    let lo = -DAY_MICROS;
    let hi = PICKER_END_UNIX_MICROS + DAY_MICROS;
    for m in [lo, 0, 1_700_000_000_000_000, hi] {
        assert!(unix_micros_to_filetime_ticks(m).is_some());
    }
    let d = delta_for_fake_time(hi, lo).unwrap();
    assert_eq!(d, (hi - lo) * 10);
    let d = delta_for_fake_time(lo, hi).unwrap();
    assert_eq!(d, (lo - hi) * 10);
}
