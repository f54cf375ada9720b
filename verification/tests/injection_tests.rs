use std::collections::HashSet;
use time_mocker::injection::{
    is_native_x64_machines, is_system_process, paths_equivalent, vet_live_image, InjectRefusal,
    InjectionManager, WrongHookMachine, IMAGE_FILE_MACHINE_AMD64, LOG_CAP,
};

#[test]
fn is_system_process_csrss() {
    assert!(is_system_process("csrss.exe"));
}

#[test]
fn is_system_process_csrss_uppercase() {
    assert!(is_system_process("CSRSS.EXE"));
}

#[test]
fn is_system_process_csrss_mixedcase() {
    assert!(is_system_process("CsRsS.ExE"));
}

#[test]
fn is_system_process_system() {
    assert!(is_system_process("system"));
}

#[test]
fn is_system_process_system_uppercase() {
    assert!(is_system_process("SYSTEM"));
}

#[test]
fn is_system_process_registry() {
    assert!(is_system_process("registry"));
}

#[test]
fn is_system_process_svchost() {
    assert!(is_system_process("svchost.exe"));
}

#[test]
fn is_system_process_dwm() {
    assert!(is_system_process("dwm.exe"));
}

#[test]
fn is_system_process_msmpeng() {
    assert!(is_system_process("msmpeng.exe"));
}

#[test]
fn is_system_process_non_system() {
    assert!(!is_system_process("notepad.exe"));
}

#[test]
fn is_system_process_non_system_uppercase() {
    assert!(!is_system_process("NOTEPAD.EXE"));
}

#[test]
fn is_system_process_myapp() {
    assert!(!is_system_process("MyApp.exe"));
}

#[test]
fn is_system_process_empty_string() {
    assert!(!is_system_process(""));
}

#[test]
fn is_system_process_partial_match_should_not_match() {
    // "csrss" (without .exe) should not match "csrss.exe"
    assert!(!is_system_process("csrss"));
}

#[test]
fn is_system_process_whole_list_and_non_ascii_case() {
    for n in [
        "Memory Compression", "SMSS.exe", "WinInit.exe", "WINLOGON.EXE", "Services.exe", "LSASS.EXE",
        "AudioDG.exe", "FontDrvHost.exe", "NisSrv.exe", "SecurityHealthService.exe",
    ] {
        assert!(is_system_process(n), "{n}");
    }
    // Only ASCII letters are folded.
    assert!(!is_system_process("ſystem"));
    assert!(!is_system_process(" system"));
}

#[test]
fn paths_equivalent_same() {
    assert!(paths_equivalent("C:\\foo\\bar.exe", "C:\\foo\\bar.exe"));
}

#[test]
fn paths_equivalent_case_insensitive() {
    assert!(paths_equivalent("C:\\Foo\\Bar.exe", "c:\\foo\\bar.exe"));
}

#[test]
fn paths_equivalent_mixed_case() {
    assert!(paths_equivalent(
        "C:\\Windows\\System32\\notepad.exe",
        "c:\\windows\\system32\\NOTEPAD.EXE"
    ));
}

#[test]
fn paths_equivalent_different_paths() {
    assert!(!paths_equivalent("C:\\foo\\bar.exe", "C:\\baz\\bar.exe"));
}

#[test]
fn paths_equivalent_different_filenames() {
    assert!(!paths_equivalent("C:\\foo\\bar.exe", "C:\\foo\\baz.exe"));
}

#[test]
fn paths_equivalent_empty_strings() {
    assert!(paths_equivalent("", ""));
}

#[test]
fn paths_equivalent_one_empty() {
    assert!(!paths_equivalent("C:\\foo.exe", ""));
}

#[test]
fn paths_equivalent_non_ascii() {
    assert!(paths_equivalent("C:\\ÄPFEL\\Été.exe", "c:\\äpfel\\été.EXE"));
    assert!(paths_equivalent("C:\\ДОМ\\a.exe", "c:\\дом\\A.exe"));
}

#[test]
fn injection_manager_log_bounded() {
    let mut manager: InjectionManager<()> =
        InjectionManager::new(String::from("dummy.dll"), None).expect("manager");

    // Push LOG_CAP + 100 entries and verify only LOG_CAP remain
    for i in 0..(LOG_CAP + 100) {
        manager.log_push(format!("line {}", i));
    }

    assert_eq!(
        manager.log.len(),
        LOG_CAP,
        "log should stay bounded at LOG_CAP"
    );
    // First message should be gone (front was popped)
    let first_kept = manager.log.front().unwrap();
    assert!(
        first_kept.contains("line 100"),
        "oldest entry should be from the 100th push"
    );
}

#[test]
fn log_keeps_everything_below_cap() {
    let mut manager: InjectionManager<()> = InjectionManager::new(String::from("hook.dll"), None).unwrap();
    manager.log_push(String::from("a"));
    manager.log_push(String::from("b"));
    assert_eq!(manager.log.len(), 2);
    assert_eq!(manager.log.back().unwrap(), "b");
}

#[test]
fn manager_rejects_non_amd64_hook() {
    let r: Result<InjectionManager<()>, WrongHookMachine> =
        InjectionManager::new(String::from("hook.dll"), Some(0x14c));
    assert_eq!(r.err(), Some(WrongHookMachine { machine: 0x14c }));
    let ok: Result<InjectionManager<()>, WrongHookMachine> =
        InjectionManager::new(String::from("hook.dll"), Some(IMAGE_FILE_MACHINE_AMD64));
    assert_eq!(ok.unwrap().hook_dll_path(), "hook.dll");
}

#[test]
fn record_disable_and_log_lines() {
    let mut m: InjectionManager<u8> = InjectionManager::new(String::from("hook.dll"), None).unwrap();
    assert!(!m.is_injected(42));
    m.record_injected(42, "notepad.exe", "C:\\Windows\\notepad.exe", 7);
    assert!(m.is_injected(42));
    assert_eq!(m.log.back().unwrap(), "Injected into [42] notepad.exe");
    assert_eq!(m.iter().len(), 1);
    assert_eq!(m.iter()[0].handle, 7);

    m.log_failure(9, "x.exe", "boom");
    assert_eq!(m.log.back().unwrap(), "inject pid=9 (x.exe) failed: boom");
    m.log_stale_mapping("TimeMocker_42");
    assert_eq!(
        m.log.back().unwrap(),
        "warn: MMF TimeMocker_42 pre-existed (stale prior session?)"
    );

    let removed = m.disable(42).expect("was injected");
    assert_eq!(removed.pid, 42);
    assert_eq!(removed.handle, 7);
    assert_eq!(m.log.back().unwrap(), "Disabled [42] notepad.exe");
    assert!(!m.is_injected(42));
    let len = m.log.len();
    assert!(m.disable(42).is_none());
    assert_eq!(m.log.len(), len);
}

#[test]
fn prune_dead_keeps_only_alive() {
    let mut m: InjectionManager<()> = InjectionManager::new(String::from("hook.dll"), None).unwrap();
    for pid in [1u32, 2, 3, 4] {
        m.record_injected(pid, "a.exe", "C:\\a.exe", ());
    }
    let alive: HashSet<u32> = [2u32, 4, 99].into_iter().collect();
    m.prune_dead(&alive);
    assert!(!m.is_injected(1));
    assert!(m.is_injected(2));
    assert!(!m.is_injected(3));
    assert!(m.is_injected(4));
    assert!(!m.is_injected(99));
    assert_eq!(m.iter().len(), 2);
}

#[test]
fn vet_live_image_decisions() {
    match vet_live_image("C:\\a\\b.exe", "C:\\a\\c.exe", Some(String::from("c.exe")), "b.exe") {
        Err(InjectRefusal::ImageMismatch { expected, live }) => {
            assert_eq!(expected, "C:\\a\\b.exe");
            assert_eq!(live, "C:\\a\\c.exe");
        }
        other => panic!("unexpected {other:?}"),
    }
    match vet_live_image("C:\\Windows\\System32\\csrss.exe", "c:\\windows\\system32\\CSRSS.EXE", Some(String::from("CSRSS.EXE")), "x") {
        Err(InjectRefusal::SystemProcess(n)) => assert_eq!(n, "CSRSS.EXE"),
        other => panic!("unexpected {other:?}"),
    }
    assert_eq!(
        vet_live_image("C:\\a\\b.exe", "C:\\A\\B.EXE", None, "b.exe").unwrap(),
        "b.exe"
    );
    assert_eq!(
        vet_live_image("C:\\a\\b.exe", "C:\\a\\b.exe", Some(String::from("live.exe")), "b.exe").unwrap(),
        "live.exe"
    );
}

#[test]
fn native_x64_machines() {
    assert!(is_native_x64_machines(0, 0x8664));
    assert!(!is_native_x64_machines(0x14c, 0x8664));
    assert!(!is_native_x64_machines(0, 0xAA64));
}
