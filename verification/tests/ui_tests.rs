use std::collections::HashSet;
use time_mocker::format::{fmt_filetime_as_systemtime, fmt_systemtime};
use time_mocker::injection::InjectionManager;
use time_mocker::order::{lex_lt, sort_by_lowercase_name};
use time_mocker::picker::{cell_day_offset, clamp_year, DatePicker};
use time_mocker::process::{auto_inject_targets, filter_processes, matches_search, ProcInfo};
use time_mocker::rules::{CompiledRules, PatternKind, Rule};
use time_mocker::text::{contains_str, to_ascii_lowercase, wide};
use time_mocker::ticks::{FileTime, SystemTime};

fn proc(pid: u32, name: &str, path: &str) -> ProcInfo {
    ProcInfo { pid, name: name.to_string(), path: path.to_string() }
}

#[test]
fn picker_navigation() {
    let mut p = DatePicker::new(1970, 2, 10, 8, 30, 0);
    assert!(p.can_prev());
    p.prev_month();
    assert_eq!((p.view_year, p.view_month), (1970, 1));
    assert!(!p.can_prev());
    p.view_year = 2200;
    p.view_month = 11;
    p.next_month();
    assert_eq!((p.view_year, p.view_month), (2200, 12));
    assert!(!p.can_next());
    p.view_year = 2023;
    p.next_month();
    assert_eq!((p.view_year, p.view_month), (2024, 1));
    p.prev_month();
    assert_eq!((p.view_year, p.view_month), (2023, 12));
    // the selection did not move
    assert_eq!((p.fake_year, p.fake_month, p.fake_day), (1970, 2, 10));
    p.sync_view();
    assert_eq!((p.view_year, p.view_month), (1970, 2));
}

#[test]
fn picker_quick_select_and_clicks() {
    let mut p = DatePicker::new(2024, 5, 17, 8, 30, 45);
    p.set_midnight();
    assert_eq!((p.fake_hour, p.fake_minute, p.fake_second), (0, 0, 0));
    p.set_noon();
    assert_eq!((p.fake_hour, p.fake_minute, p.fake_second), (12, 0, 0));
    assert!(p.cell_in_month(2024, 5));
    assert!(!p.cell_in_month(2024, 6));
    p.click_cell(2024, 5, 3);
    assert!(p.cell_is_selected(2024, 5, 3));
    assert_eq!((p.view_year, p.view_month), (2024, 5));
    p.click_cell(2024, 6, 1);
    assert_eq!((p.fake_year, p.fake_month, p.fake_day), (2024, 6, 1));
    assert_eq!((p.view_year, p.view_month), (2024, 6));
    p.click_cell(1969, 12, 31);
    assert_eq!((p.fake_year, p.fake_month, p.fake_day), (1970, 12, 31));
    p.set_shifted_date(2201, 1, 1);
    assert_eq!((p.fake_year, p.view_year, p.view_month), (2200, 2200, 1));
    p.set_now(2025, 7, 4, 9, 8, 7);
    assert_eq!(p, DatePicker::new(2025, 7, 4, 9, 8, 7));
    assert_eq!(clamp_year(-5), 1970);
    assert_eq!(clamp_year(2100), 2100);
    assert_eq!(cell_day_offset(0, 0, 3), -3);
    assert_eq!(cell_day_offset(5, 6, 0), 41);
}

#[test]
fn systemtime_text() {
    let st = SystemTime { year: 2024, month: 3, day_of_week: 0, day: 5, hour: 7, minute: 8, second: 9, milliseconds: 42 };
    assert_eq!(fmt_systemtime(&st), "2024-03-05 07:08:09.042");
    let st2 = SystemTime { year: 7, month: 12, day_of_week: 1, day: 31, hour: 23, minute: 59, second: 59, milliseconds: 999 };
    assert_eq!(fmt_systemtime(&st2), "0007-12-31 23:59:59.999");
    let ft = FileTime { low_date_time: 1, high_date_time: 1 };
    assert_eq!(fmt_filetime_as_systemtime(&ft, Some(st)), "UTC   2024-03-05 07:08:09.042");
    assert_eq!(fmt_filetime_as_systemtime(&ft, None), "(raw 4294967297; FileTimeToSystemTime failed)");
}

#[test]
fn text_helpers() {
    assert_eq!(to_ascii_lowercase("CsRsS.ExE Ä"), "csrss.exe Ä");
    assert!(contains_str("notepad.exe", "pad"));
    assert!(contains_str("abc", ""));
    assert!(!contains_str("ab", "abc"));
    assert!(contains_str("aab", "ab"));
    assert_eq!(wide("A"), vec![0x41, 0]);
    assert_eq!(wide("TimeMocker_1"), "TimeMocker_1".encode_utf16().chain(std::iter::once(0)).collect::<Vec<u16>>());
    assert_eq!(wide("é😀"), "é😀".encode_utf16().chain(std::iter::once(0)).collect::<Vec<u16>>());
}

#[test]
fn process_rows_and_search() {
    assert!(ProcInfo::from_snapshot(4, String::new(), None).is_none());
    let p = ProcInfo::from_snapshot(5, "a.exe".to_string(), None).unwrap();
    assert_eq!((p.pid, p.name.as_str(), p.path.as_str()), (5, "a.exe", ""));
    let procs = vec![
        proc(1, "Notepad.exe", "C:\\Windows\\notepad.exe"),
        proc(2, "calc.exe", "C:\\Apps\\PAD\\calc.exe"),
        proc(3, "cmd.exe", "C:\\Windows\\cmd.exe"),
    ];
    assert!(matches_search(&procs[0], ""));
    assert!(matches_search(&procs[0], "NOTE"));
    let rows = filter_processes(&procs, "pad");
    assert_eq!(rows.iter().map(|p| p.pid).collect::<Vec<_>>(), vec![1, 2]);
    let rows = filter_processes(&procs, "");
    assert_eq!(rows.len(), 3);
    let rows = filter_processes(&procs, "zzz");
    assert!(rows.is_empty());
}

#[test]
fn auto_inject_picks_unmatched_uninjected() {
    let procs = vec![
        proc(10, "chrome.exe", "C:\\c\\chrome.exe"),
        proc(11, "firefox.exe", "C:\\f\\firefox.exe"),
        proc(12, "chrome.exe", "C:\\c2\\chrome.exe"),
    ];
    let rules = CompiledRules::compile(&[Rule { pattern: "*chrome*".into(), kind: PatternKind::Glob, enabled: true }]);
    let mut m: InjectionManager<()> = InjectionManager::new(String::from("hook.dll"), None).unwrap();
    assert_eq!(auto_inject_targets(&procs, &rules, &m), vec![0, 2]);
    m.record_injected(10, "chrome.exe", "C:\\c\\chrome.exe", ());
    assert_eq!(auto_inject_targets(&procs, &rules, &m), vec![2]);
    let alive: HashSet<u32> = HashSet::new();
    m.prune_dead(&alive);
    assert_eq!(auto_inject_targets(&procs, &rules, &m), vec![0, 2]);
}

#[test]
fn sort_rows_by_lowercase_name_stably() {
    let procs = vec![
        proc(1, "b.exe", "x"),
        proc(2, "A.exe", "y"),
        proc(3, "a.exe", "z"),
        proc(4, "Ä.exe", "w"),
        proc(5, "B.EXE", "v"),
        proc(6, "ab.exe", "u"),
    ];
    let sorted = sort_by_lowercase_name(&procs);
    let pids: Vec<u32> = sorted.iter().map(|p| p.pid).collect();
    assert_eq!(pids, vec![2, 3, 6, 1, 5, 4]);
    // same order as std's stable sort by lowercase key
    let mut expect: Vec<(u32, String)> = procs.iter().map(|p| (p.pid, p.name.clone())).collect();
    expect.sort_by_key(|(_, n)| n.to_lowercase());
    assert_eq!(pids, expect.iter().map(|(p, _)| *p).collect::<Vec<_>>());
    assert!(sort_by_lowercase_name(&Vec::new()).is_empty());
    let a: Vec<char> = "ab".chars().collect();
    let b: Vec<char> = "b".chars().collect();
    let e: Vec<char> = Vec::new();
    assert!(lex_lt(&a, &b));
    assert!(!lex_lt(&b, &a));
    assert!(lex_lt(&e, &a));
    assert!(!lex_lt(&a, &a));
}
