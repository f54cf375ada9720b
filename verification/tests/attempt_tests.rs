use time_mocker::attempt::{InjectAction, InjectAttempt, InjectEvent, InjectStage, MappingFailure};
use time_mocker::injection::InjectionManager;
use time_mocker::types::CreateOutcome;

fn manager() -> InjectionManager<()> {
    InjectionManager::new(String::from("C:\\tm\\time_mocker_hook.dll"), None).unwrap()
}

fn image(live: &str, file: &str) -> InjectEvent {
    InjectEvent::Image(Ok((live.to_string(), Some(file.to_string()))))
}

#[test]
fn attempt_happy_path() {
    let mut m = manager();
    let mut a = InjectAttempt::new(77, "game.exe", "D:\\Games\\game.exe");
    assert!(matches!(a.step(&mut m, InjectEvent::Begin), InjectAction::CheckHookDll));
    assert!(matches!(a.step(&mut m, InjectEvent::HookDll(true)), InjectAction::QueryImage));
    assert!(matches!(a.step(&mut m, image("d:\\games\\GAME.EXE", "GAME.EXE")), InjectAction::CheckBitness));
    match a.step(&mut m, InjectEvent::Bitness(true)) {
        InjectAction::CreateMapping(n) => assert_eq!(n, "Global\\TimeMocker_77"),
        other => panic!("unexpected {other:?}"),
    }
    assert!(matches!(a.step(&mut m, InjectEvent::Mapping(Ok(CreateOutcome::Fresh))), InjectAction::OpenProcess));
    assert!(matches!(a.step(&mut m, InjectEvent::ProcessOpened(Ok(()))), InjectAction::InjectDll));
    assert!(matches!(a.step(&mut m, InjectEvent::Injected(Ok(()))), InjectAction::Succeeded));
    assert_eq!(a.stage, InjectStage::Finished);
    assert!(m.log.is_empty());
}

#[test]
fn attempt_already_injected_and_stale_mapping() {
    let mut m = manager();
    m.record_injected(5, "a.exe", "C:\\a.exe", ());
    let mut a = InjectAttempt::new(5, "a.exe", "C:\\a.exe");
    assert!(matches!(a.step(&mut m, InjectEvent::Begin), InjectAction::AlreadyInjected));

    let mut b = InjectAttempt::new(6, "b.exe", "C:\\b.exe");
    b.step(&mut m, InjectEvent::Begin);
    b.step(&mut m, InjectEvent::HookDll(true));
    b.step(&mut m, image("C:\\b.exe", "b.exe"));
    b.step(&mut m, InjectEvent::Bitness(true));
    assert!(matches!(b.step(&mut m, InjectEvent::Mapping(Ok(CreateOutcome::Existed))), InjectAction::OpenProcess));
    assert_eq!(m.log.back().unwrap(), "warn: MMF Global\\TimeMocker_6 pre-existed (stale prior session?)");
}

fn fail_reason(a: &mut InjectAttempt, m: &mut InjectionManager<()>, e: InjectEvent) -> String {
    match a.step(m, e) {
        InjectAction::Failed(r) => r,
        other => panic!("unexpected {other:?}"),
    }
}

#[test]
fn attempt_failures_are_logged() {
    let mut m = manager();
    let mut a = InjectAttempt::new(9, "x.exe", "C:\\x.exe");
    a.step(&mut m, InjectEvent::Begin);
    let r = fail_reason(&mut a, &mut m, InjectEvent::HookDll(false));
    assert_eq!(r, "hook DLL not found at C:\\tm\\time_mocker_hook.dll");
    assert_eq!(m.log.back().unwrap(), "inject pid=9 (x.exe) failed: hook DLL not found at C:\\tm\\time_mocker_hook.dll");

    let mut a = InjectAttempt::new(9, "x.exe", "C:\\x.exe");
    a.step(&mut m, InjectEvent::Begin);
    a.step(&mut m, InjectEvent::HookDll(true));
    let r = fail_reason(&mut a, &mut m, InjectEvent::Image(Err(String::from("Access is denied. (os error 5)"))));
    assert_eq!(r, "query image name for pid=9: Access is denied. (os error 5)");

    let mut a = InjectAttempt::new(9, "x.exe", "C:\\x.exe");
    a.step(&mut m, InjectEvent::Begin);
    a.step(&mut m, InjectEvent::HookDll(true));
    let r = fail_reason(&mut a, &mut m, image("C:\\y.exe", "y.exe"));
    assert_eq!(r, "pid=9 image mismatch: expected `C:\\x.exe`, got `C:\\y.exe` (PID reuse?)");

    let mut a = InjectAttempt::new(4, "svc", "C:\\Windows\\System32\\svchost.exe");
    a.step(&mut m, InjectEvent::Begin);
    a.step(&mut m, InjectEvent::HookDll(true));
    let r = fail_reason(&mut a, &mut m, image("C:\\Windows\\System32\\svchost.exe", "svchost.exe"));
    assert_eq!(r, "refusing to inject system process svchost.exe (pid=4)");

    let mut a = InjectAttempt::new(9, "x.exe", "C:\\x.exe");
    a.step(&mut m, InjectEvent::Begin);
    a.step(&mut m, InjectEvent::HookDll(true));
    a.step(&mut m, image("C:\\x.exe", "x.exe"));
    let r = fail_reason(&mut a, &mut m, InjectEvent::Bitness(false));
    assert_eq!(r, "pid=9 is not a native x64 process; the AMD64 hook DLL cannot be injected");

    let mut a = InjectAttempt::new(9, "x.exe", "C:\\x.exe");
    a.step(&mut m, InjectEvent::Begin);
    a.step(&mut m, InjectEvent::HookDll(true));
    a.step(&mut m, image("C:\\x.exe", "x.exe"));
    a.step(&mut m, InjectEvent::Bitness(true));
    let r = fail_reason(&mut a, &mut m, InjectEvent::Mapping(Err(mapping_failure(8, "out of memory"))));
    assert_eq!(r, "create MMF Global\\TimeMocker_9: out of memory");

    let mut a = InjectAttempt::new(9, "x.exe", "C:\\x.exe");
    a.step(&mut m, InjectEvent::Begin);
    a.step(&mut m, InjectEvent::HookDll(true));
    a.step(&mut m, image("C:\\x.exe", "x.exe"));
    a.step(&mut m, InjectEvent::Bitness(true));
    a.step(&mut m, InjectEvent::Mapping(Ok(CreateOutcome::Fresh)));
    let r = fail_reason(&mut a, &mut m, InjectEvent::ProcessOpened(Err(String::from("gone"))));
    assert_eq!(r, "open process pid=9: gone");

    let mut a = InjectAttempt::new(9, "x.exe", "C:\\x.exe");
    a.step(&mut m, InjectEvent::Begin);
    a.step(&mut m, InjectEvent::HookDll(true));
    a.step(&mut m, image("C:\\x.exe", "x.exe"));
    a.step(&mut m, InjectEvent::Bitness(true));
    a.step(&mut m, InjectEvent::Mapping(Ok(CreateOutcome::Fresh)));
    a.step(&mut m, InjectEvent::ProcessOpened(Ok(())));
    let r = fail_reason(&mut a, &mut m, InjectEvent::Injected(Err(String::from("boom"))));
    assert_eq!(r, "inject C:\\tm\\time_mocker_hook.dll into pid=9: boom");
    assert_eq!(m.log.back().unwrap(), "inject pid=9 (x.exe) failed: inject C:\\tm\\time_mocker_hook.dll into pid=9: boom");
    assert!(!m.is_injected(9));
}

#[test]
fn attempt_uses_snapshot_name_without_file_name() {
    let mut m = manager();
    let mut a = InjectAttempt::new(3, "csrss.exe", "C:\\odd\\");
    a.step(&mut m, InjectEvent::Begin);
    a.step(&mut m, InjectEvent::HookDll(true));
    let r = fail_reason(&mut a, &mut m, InjectEvent::Image(Ok((String::from("C:\\odd\\"), None))));
    assert_eq!(r, "refusing to inject system process csrss.exe (pid=3)");
}

fn mapping_failure(code: u32, message: &str) -> MappingFailure {
    MappingFailure { code, message: message.to_string() }
}

fn at_mapping(m: &mut InjectionManager<()>, pid: u32) -> InjectAttempt {
    let mut a = InjectAttempt::new(pid, "x.exe", "C:\\x.exe");
    a.step(m, InjectEvent::Begin);
    a.step(m, InjectEvent::HookDll(true));
    a.step(m, image("C:\\x.exe", "x.exe"));
    a.step(m, InjectEvent::Bitness(true));
    a
}

#[test]
fn attempt_falls_back_to_local_namespace_on_access_denied() {
    let mut m = manager();
    let mut a = at_mapping(&mut m, 12);
    match a.step(&mut m, InjectEvent::Mapping(Err(mapping_failure(5, "Access is denied. (os error 5)")))) {
        InjectAction::CreateMapping(n) => assert_eq!(n, "Local\\TimeMocker_12"),
        other => panic!("unexpected {other:?}"),
    }
    assert_eq!(a.stage, InjectStage::LocalMapping);
    assert!(m.log.is_empty());
    assert!(matches!(a.step(&mut m, InjectEvent::Mapping(Ok(CreateOutcome::Existed))), InjectAction::OpenProcess));
    assert_eq!(m.log.back().unwrap(), "warn: MMF Local\\TimeMocker_12 pre-existed (stale prior session?)");
}

#[test]
fn attempt_local_namespace_failure_is_final() {
    let mut m = manager();
    let mut a = at_mapping(&mut m, 13);
    a.step(&mut m, InjectEvent::Mapping(Err(mapping_failure(5, "denied"))));
    let r = fail_reason(&mut a, &mut m, InjectEvent::Mapping(Err(mapping_failure(5, "denied again"))));
    assert_eq!(r, "create MMF Local\\TimeMocker_13: denied again");
    assert_eq!(a.stage, InjectStage::Finished);
    assert_eq!(m.log.back().unwrap(), "inject pid=13 (x.exe) failed: create MMF Local\\TimeMocker_13: denied again");
}
