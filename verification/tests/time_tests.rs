use time_mocker::hook::{
    delta, fake_filetime, fake_ticks, local_or_utc, nt_query_system_time_outcome, saturating_add_i64,
    InstallReport, NtQueryOutcome, STATUS_ACCESS_VIOLATION,
};
use time_mocker::naming::{
    fallback_namespace, mmf_name_for_pid, namespaced_mmf_name, probe_names, MappingNamespace, ERROR_ACCESS_DENIED,
    MMF_PREFIX,
};
use time_mocker::ticks::{filetime_to_i64, i64_to_filetime, FileTime, SystemTime};
use time_mocker::types::{create_outcome, CreateOutcome, MockTimeInfo, ERROR_ALREADY_EXISTS};

#[test]
fn mmf_names() {
    assert_eq!(mmf_name_for_pid(0), "TimeMocker_0");
    assert_eq!(mmf_name_for_pid(1234), "TimeMocker_1234");
    assert_eq!(mmf_name_for_pid(u32::MAX), "TimeMocker_4294967295");
    assert_eq!(MMF_PREFIX, "TimeMocker_");
    assert_ne!(mmf_name_for_pid(12), mmf_name_for_pid(120));
}

#[test]
fn namespaced_mmf_names() {
    assert_eq!(namespaced_mmf_name(MappingNamespace::Global, 1234), "Global\\TimeMocker_1234");
    assert_eq!(namespaced_mmf_name(MappingNamespace::Local, 7), "Local\\TimeMocker_7");
    assert_eq!(probe_names(42), vec!["Global\\TimeMocker_42".to_string(), "Local\\TimeMocker_42".to_string()]);
    assert_eq!(ERROR_ACCESS_DENIED, 5);
    assert_eq!(fallback_namespace(MappingNamespace::Global, 5), Some(MappingNamespace::Local));
    assert_eq!(fallback_namespace(MappingNamespace::Global, 8), None);
    assert_eq!(fallback_namespace(MappingNamespace::Local, 5), None);
    assert_ne!(
        namespaced_mmf_name(MappingNamespace::Global, 1),
        namespaced_mmf_name(MappingNamespace::Local, 1)
    );
}

#[test]
fn filetime_halves() {
    let ft = i64_to_filetime(0x0123_4567_89AB_CDEF);
    assert_eq!(ft, FileTime { low_date_time: 0x89AB_CDEF, high_date_time: 0x0123_4567 });
    assert_eq!(filetime_to_i64(ft), 0x0123_4567_89AB_CDEF);
    let neg = i64_to_filetime(-1);
    assert_eq!(neg, FileTime { low_date_time: u32::MAX, high_date_time: u32::MAX });
    assert_eq!(filetime_to_i64(neg), -1);
    for t in [0i64, 1, -2, i64::MAX, i64::MIN, 133_000_000_000_000_000, -1_234_567_890_123_456] {
        assert_eq!(filetime_to_i64(i64_to_filetime(t)), t);
    }
    let ft = FileTime { low_date_time: 0x8000_0000, high_date_time: 0x8000_0000 };
    assert_eq!(i64_to_filetime(filetime_to_i64(ft)), ft);
}

#[test]
fn hook_shifts_and_saturates() {
    assert_eq!(fake_ticks(1_000, 500), 1_500);
    assert_eq!(fake_ticks(1_000, -1_500), -500);
    assert_eq!(fake_ticks(i64::MAX - 1, 10), i64::MAX);
    assert_eq!(fake_ticks(i64::MIN + 1, -10), i64::MIN);
    assert_eq!(saturating_add_i64(i64::MAX, i64::MAX), i64::MAX);
    let real = i64_to_filetime(133_500_000_000_000_000);
    assert_eq!(fake_filetime(real, 0), real);
    assert_eq!(
        filetime_to_i64(fake_filetime(real, 864_000_000_000)),
        133_500_000_000_000_000 + 864_000_000_000
    );
}

#[test]
fn delta_defaults_to_zero() {
    assert_eq!(delta(None), 0);
    assert_eq!(delta(Some(-7)), -7);
}

#[test]
fn nt_query_outcomes() {
    assert_eq!(nt_query_system_time_outcome(0, 100, 5), NtQueryOutcome::Write(105));
    assert_eq!(
        nt_query_system_time_outcome(STATUS_ACCESS_VIOLATION, 100, 5),
        NtQueryOutcome::Fail(STATUS_ACCESS_VIOLATION)
    );
    assert_eq!(STATUS_ACCESS_VIOLATION, 0xC0000005_u32 as i32);
}

#[test]
fn local_time_falls_back_to_utc() {
    let utc = SystemTime { year: 2024, month: 3, day_of_week: 0, day: 31, hour: 1, minute: 30, second: 0, milliseconds: 0 };
    let local = SystemTime { hour: 3, ..utc };
    assert_eq!(local_or_utc(utc, Some(local)), local);
    assert_eq!(local_or_utc(utc, None), utc);
}

#[test]
fn install_report_records() {
    let mut r = InstallReport::default();
    r.record("GetSystemTime", Ok(()));
    r.record("GetSystemTimePreciseAsFileTime", Err(String::from("GetProcAddress: not found")));
    assert_eq!(r.installed, vec!["GetSystemTime"]);
    assert_eq!(r.failed, vec![("GetSystemTimePreciseAsFileTime", String::from("GetProcAddress: not found"))]);
}

#[test]
fn mock_time_info_and_outcome() {
    assert_eq!(MockTimeInfo::zero().delta_ticks, 0);
    assert_eq!(MockTimeInfo::default(), MockTimeInfo::zero());
    assert_eq!(MockTimeInfo::SIZE, std::mem::size_of::<MockTimeInfo>());
    assert_eq!(create_outcome(ERROR_ALREADY_EXISTS), CreateOutcome::Existed);
    assert_eq!(create_outcome(0), CreateOutcome::Fresh);
    assert_eq!(create_outcome(5), CreateOutcome::Fresh);
}
