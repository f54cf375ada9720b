//! One injection attempt as a sequence of checks and Win32 steps. The
//! controller performs each action and reports what happened; the attempt
//! decides what comes next, and logs a failure with its reason.

use vstd::prelude::*;
use crate::injection::{
    checked_name, failure_line, pid_line, spec_is_system_process, spec_log_after_push,
    spec_paths_equivalent, stale_mapping_line, vet_live_image, InjectRefusal, InjectionManager,
};
use crate::naming::{
    fallback_namespace, namespaced_mmf_name, spec_namespaced_mmf_name, MappingNamespace, ERROR_ACCESS_DENIED,
};
use crate::text::decimal;
use crate::types::CreateOutcome;

verus! {

/// Where an attempt stands: the step whose outcome it waits for.
#[derive(Clone, Copy, Debug, PartialEq, Eq, Structural)]
pub enum InjectStage {
    Start,
    HookDll,
    Image,
    Bitness,
    /// Creating the mapping in `Global\`.
    Mapping,
    /// Creating the mapping in `Local\`, after `Global\` was refused.
    LocalMapping,
    Process,
    Syringe,
    Finished,
}

/// What the controller does next.
#[derive(Debug)]
pub enum InjectAction {
    /// Stop with success: the process was injected before.
    AlreadyInjected,
    /// See whether the hook DLL file exists.
    CheckHookDll,
    /// Query the live image path of the process (and its file name).
    QueryImage,
    /// Ask whether the process is native AMD64.
    CheckBitness,
    /// Create the shared mapping of this name and write the initial delta
    /// (first in `Global\`, then, if that is refused, in `Local\`).
    CreateMapping(String),
    /// Open the process.
    OpenProcess,
    /// Load the hook DLL into the process.
    InjectDll,
    /// Stop with success: record the injection.
    Succeeded,
    /// Stop with this failure (already logged).
    Failed(String),
}

/// Why creating a mapping failed: the Win32 error code (0 when there is
/// none) and its text.
#[derive(Debug)]
pub struct MappingFailure {
    pub code: u32,
    pub message: String,
}

/// What happened at the step the attempt waited for.
#[derive(Debug)]
pub enum InjectEvent {
    Begin,
    HookDll(bool),
    /// The live image path and its file name, or the error text.
    Image(Result<(String, Option<String>), String>),
    Bitness(bool),
    Mapping(Result<CreateOutcome, MappingFailure>),
    ProcessOpened(Result<(), String>),
    Injected(Result<(), String>),
}

/// Whether `event` reports the step that `stage` waits for.
pub open spec fn event_fits(stage: InjectStage, event: InjectEvent) -> bool {
    match (stage, event) {
        (InjectStage::Start, InjectEvent::Begin) => true,
        (InjectStage::HookDll, InjectEvent::HookDll(_)) => true,
        (InjectStage::Image, InjectEvent::Image(_)) => true,
        (InjectStage::Bitness, InjectEvent::Bitness(_)) => true,
        (InjectStage::Mapping, InjectEvent::Mapping(_)) => true,
        (InjectStage::LocalMapping, InjectEvent::Mapping(_)) => true,
        (InjectStage::Process, InjectEvent::ProcessOpened(_)) => true,
        (InjectStage::Syringe, InjectEvent::Injected(_)) => true,
        _ => false,
    }
}

/// "hook DLL not found at PATH".
pub open spec fn missing_dll_reason(dll: Seq<char>) -> Seq<char> {
    "hook DLL not found at "@ + dll
}

/// "query image name for pid=PID: ERROR".
pub open spec fn query_failed_reason(pid: u32, err: Seq<char>) -> Seq<char> {
    "query image name for pid="@ + decimal(pid as nat) + ": "@ + err
}

/// "pid=PID image mismatch: expected `PATH`, got `LIVE` (PID reuse?)".
pub open spec fn mismatch_reason(pid: u32, expected: Seq<char>, live: Seq<char>) -> Seq<char> {
    "pid="@ + decimal(pid as nat) + " image mismatch: expected `"@ + expected + "`, got `"@ + live
        + "` (PID reuse?)"@
}

/// "refusing to inject system process NAME (pid=PID)".
pub open spec fn system_reason(pid: u32, name: Seq<char>) -> Seq<char> {
    "refusing to inject system process "@ + name + " (pid="@ + decimal(pid as nat) + ")"@
}

/// "pid=PID is not a native x64 process; the AMD64 hook DLL cannot be injected".
pub open spec fn bitness_reason(pid: u32) -> Seq<char> {
    "pid="@ + decimal(pid as nat) + " is not a native x64 process; the AMD64 hook DLL cannot be injected"@
}

/// The namespace that a mapping stage creates the mapping in.
pub open spec fn stage_namespace(stage: InjectStage) -> MappingNamespace {
    if stage == InjectStage::LocalMapping {
        MappingNamespace::Local
    } else {
        MappingNamespace::Global
    }
}

/// "create MMF NAME: ERROR".
pub open spec fn mapping_reason(name: Seq<char>, err: Seq<char>) -> Seq<char> {
    "create MMF "@ + name + ": "@ + err
}

/// "open process pid=PID: ERROR".
pub open spec fn open_reason(pid: u32, err: Seq<char>) -> Seq<char> {
    "open process pid="@ + decimal(pid as nat) + ": "@ + err
}

/// "inject DLL into pid=PID: ERROR".
pub open spec fn inject_reason(dll: Seq<char>, pid: u32, err: Seq<char>) -> Seq<char> {
    "inject "@ + dll + " into pid="@ + decimal(pid as nat) + ": "@ + err
}

/// One attempt to inject process `pid`, listed as `name` with image `path`.
pub struct InjectAttempt {
    pub pid: u32,
    pub name: String,
    pub path: String,
    pub stage: InjectStage,
}

/// The attempt's next stage and action for an event, and the reason of a
/// failure, given whether the pid is injected and the hook DLL's path.
pub open spec fn spec_step(
    pid: u32,
    name: Seq<char>,
    path: Seq<char>,
    stage: InjectStage,
    event: InjectEvent,
    injected: bool,
    dll: Seq<char>,
) -> (InjectStage, Option<Seq<char>>) {
    match event {
        InjectEvent::Begin => (if injected { InjectStage::Finished } else { InjectStage::HookDll }, None),
        InjectEvent::HookDll(exists) => if exists {
            (InjectStage::Image, None)
        } else {
            (InjectStage::Finished, Some(missing_dll_reason(dll)))
        },
        InjectEvent::Image(Err(e)) => (InjectStage::Finished, Some(query_failed_reason(pid, e@))),
        InjectEvent::Image(Ok((live, file_name))) => if !spec_paths_equivalent(live@, path) {
            (InjectStage::Finished, Some(mismatch_reason(pid, path, live@)))
        } else if spec_is_system_process(checked_name(file_name, name)) {
            (InjectStage::Finished, Some(system_reason(pid, checked_name(file_name, name))))
        } else {
            (InjectStage::Bitness, None)
        },
        InjectEvent::Bitness(native) => if native {
            (InjectStage::Mapping, None)
        } else {
            (InjectStage::Finished, Some(bitness_reason(pid)))
        },
        InjectEvent::Mapping(Err(f)) => if stage == InjectStage::Mapping && f.code == ERROR_ACCESS_DENIED {
            (InjectStage::LocalMapping, None)
        } else {
            (InjectStage::Finished, Some(mapping_reason(spec_namespaced_mmf_name(stage_namespace(stage), pid), f.message@)))
        },
        InjectEvent::Mapping(Ok(_)) => (InjectStage::Process, None),
        InjectEvent::ProcessOpened(Err(e)) => (InjectStage::Finished, Some(open_reason(pid, e@))),
        InjectEvent::ProcessOpened(Ok(())) => (InjectStage::Syringe, None),
        InjectEvent::Injected(Err(e)) => (InjectStage::Finished, Some(inject_reason(dll, pid, e@))),
        InjectEvent::Injected(Ok(())) => (InjectStage::Finished, None),
    }
}

impl InjectAttempt {
    /// A fresh attempt, waiting for `InjectEvent::Begin`.
    pub fn new(pid: u32, name: &str, path: &str) -> (a: Self)
        ensures
            a.pid == pid,
            a.name@ == name@,
            a.path@ == path@,
            a.stage == InjectStage::Start,
    {
        InjectAttempt { pid, name: String::from_str(name), path: String::from_str(path), stage: InjectStage::Start }
    }

    /// Advances the attempt by the outcome of its current step and returns
    /// the next action. A failure is logged in `manager` as
    /// "inject pid=PID (NAME) failed: REASON"; a mapping that already existed
    /// is logged as a warning. The checks come in this order: not injected
    /// yet, hook DLL present, live image equals the listed path, not a
    /// system process, native AMD64; then the mapping is created (in
    /// `Global\`, or in `Local\` when `Global\` refuses access), the process
    /// opened and the DLL injected.
    pub fn step<H>(&mut self, manager: &mut InjectionManager<H>, event: InjectEvent) -> (action: InjectAction)
        requires
            event_fits(old(self).stage, event),
        ensures
            final(self).pid == old(self).pid,
            final(self).name@ == old(self).name@,
            final(self).path@ == old(self).path@,
            final(manager).processes() == old(manager).processes(),
            final(manager).spec_hook_dll_path() == old(manager).spec_hook_dll_path(),
            old(manager).wf() ==> final(manager).wf(),
            ({
                let (stage, failure) = spec_step(
                    old(self).pid,
                    old(self).name@,
                    old(self).path@,
                    old(self).stage,
                    event,
                    old(manager).processes().contains_key(old(self).pid),
                    old(manager).spec_hook_dll_path(),
                );
                &&& final(self).stage == stage
                &&& match failure {
                    Some(reason) => {
                        &&& action matches InjectAction::Failed(r) && r@ == reason
                        &&& final(manager).log_lines().last()@ == failure_line(old(self).pid, old(self).name@, reason)
                        &&& final(manager).log_lines() == spec_log_after_push(
                            old(manager).log_lines(),
                            final(manager).log_lines().last(),
                        )
                    },
                    None => {
                        &&& (event matches InjectEvent::Mapping(Ok(CreateOutcome::Existed))) ==> {
                            &&& final(manager).log_lines().last()@ == stale_mapping_line(
                                spec_namespaced_mmf_name(stage_namespace(old(self).stage), old(self).pid),
                            )
                            &&& final(manager).log_lines() == spec_log_after_push(
                                old(manager).log_lines(),
                                final(manager).log_lines().last(),
                            )
                        }
                        &&& !(event matches InjectEvent::Mapping(Ok(CreateOutcome::Existed)))
                            ==> final(manager).log_lines() == old(manager).log_lines()
                        &&& match stage {
                            InjectStage::Finished => if event is Begin {
                                action is AlreadyInjected
                            } else {
                                action is Succeeded
                            },
                            InjectStage::HookDll => action is CheckHookDll,
                            InjectStage::Image => action is QueryImage,
                            InjectStage::Bitness => action is CheckBitness,
                            InjectStage::Mapping => action matches InjectAction::CreateMapping(n)
                                && n@ == spec_namespaced_mmf_name(MappingNamespace::Global, old(self).pid),
                            InjectStage::LocalMapping => action matches InjectAction::CreateMapping(n)
                                && n@ == spec_namespaced_mmf_name(MappingNamespace::Local, old(self).pid),
                            InjectStage::Process => action is OpenProcess,
                            InjectStage::Syringe => action is InjectDll,
                            InjectStage::Start => false,
                        }
                    },
                }
            }),
    {
        let pid = self.pid;
        let outcome: Result<InjectAction, String> = match event {
            InjectEvent::Begin => {
                if manager.is_injected(pid) {
                    self.stage = InjectStage::Finished;
                    Ok(InjectAction::AlreadyInjected)
                } else {
                    self.stage = InjectStage::HookDll;
                    Ok(InjectAction::CheckHookDll)
                }
            },
            InjectEvent::HookDll(exists) => {
                if exists {
                    self.stage = InjectStage::Image;
                    Ok(InjectAction::QueryImage)
                } else {
                    let mut r = String::from_str("hook DLL not found at ");
                    r.append(manager.hook_dll_path());
                    assert(r@ =~= missing_dll_reason(manager.spec_hook_dll_path()));
                    Err(r)
                }
            },
            InjectEvent::Image(Err(e)) => Err(pid_line("query image name for pid=", pid, ": ", e.as_str())),
            InjectEvent::Image(Ok((live, file_name))) => {
                match vet_live_image(self.path.as_str(), live.as_str(), file_name, self.name.as_str()) {
                    Ok(_) => {
                        self.stage = InjectStage::Bitness;
                        Ok(InjectAction::CheckBitness)
                    },
                    Err(InjectRefusal::ImageMismatch { expected, live }) => {
                        let mut r = pid_line("pid=", pid, " image mismatch: expected `", expected.as_str());
                        r.append("`, got `");
                        r.append(live.as_str());
                        r.append("` (PID reuse?)");
                        assert(r@ =~= mismatch_reason(pid, self.path@, live@));
                        Err(r)
                    },
                    Err(InjectRefusal::SystemProcess(n)) => {
                        let mut r = String::from_str("refusing to inject system process ");
                        r.append(n.as_str());
                        let tail = pid_line(" (pid=", pid, ")", "");
                        r.append(tail.as_str());
                        proof {
                            reveal_strlit("");
                        }
                        assert(r@ =~= system_reason(pid, n@));
                        Err(r)
                    },
                }
            },
            InjectEvent::Bitness(native) => {
                if native {
                    self.stage = InjectStage::Mapping;
                    Ok(InjectAction::CreateMapping(namespaced_mmf_name(MappingNamespace::Global, pid)))
                } else {
                    let r = pid_line("pid=", pid, " is not a native x64 process; the AMD64 hook DLL cannot be injected", "");
                    proof {
                        reveal_strlit("");
                    }
                    assert(r@ =~= bitness_reason(pid));
                    Err(r)
                }
            },
            InjectEvent::Mapping(Err(f)) => {
                let ns = if self.stage == InjectStage::LocalMapping {
                    MappingNamespace::Local
                } else {
                    MappingNamespace::Global
                };
                match fallback_namespace(ns, f.code) {
                    Some(next) => {
                        self.stage = InjectStage::LocalMapping;
                        Ok(InjectAction::CreateMapping(namespaced_mmf_name(next, pid)))
                    },
                    None => {
                        let mut r = String::from_str("create MMF ");
                        let m = namespaced_mmf_name(ns, pid);
                        r.append(m.as_str());
                        r.append(": ");
                        r.append(f.message.as_str());
                        assert(r@ =~= mapping_reason(spec_namespaced_mmf_name(ns, pid), f.message@));
                        Err(r)
                    },
                }
            },
            InjectEvent::Mapping(Ok(outcome)) => {
                if outcome == CreateOutcome::Existed {
                    let ns = if self.stage == InjectStage::LocalMapping {
                        MappingNamespace::Local
                    } else {
                        MappingNamespace::Global
                    };
                    let m = namespaced_mmf_name(ns, pid);
                    manager.log_stale_mapping(m.as_str());
                }
                self.stage = InjectStage::Process;
                Ok(InjectAction::OpenProcess)
            },
            InjectEvent::ProcessOpened(Err(e)) => Err(pid_line("open process pid=", pid, ": ", e.as_str())),
            InjectEvent::ProcessOpened(Ok(())) => {
                self.stage = InjectStage::Syringe;
                Ok(InjectAction::InjectDll)
            },
            InjectEvent::Injected(Err(e)) => {
                let mut r = String::from_str("inject ");
                r.append(manager.hook_dll_path());
                let tail = pid_line(" into pid=", pid, ": ", e.as_str());
                r.append(tail.as_str());
                assert(r@ =~= inject_reason(manager.spec_hook_dll_path(), pid, e@));
                Err(r)
            },
            InjectEvent::Injected(Ok(())) => {
                self.stage = InjectStage::Finished;
                Ok(InjectAction::Succeeded)
            },
        };
        match outcome {
            Ok(action) => action,
            Err(reason) => {
                self.stage = InjectStage::Finished;
                manager.log_failure(pid, self.name.as_str(), reason.as_str());
                InjectAction::Failed(reason)
            },
        }
    }
}

/// Stage and failure after an attempt has been fed `events` in turn, given
/// whether the pid was injected and the hook DLL's path (neither changes
/// while the attempt runs).
pub open spec fn run_state(
    pid: u32,
    name: Seq<char>,
    path: Seq<char>,
    events: Seq<InjectEvent>,
    injected: bool,
    dll: Seq<char>,
) -> (InjectStage, Option<Seq<char>>)
    decreases events.len(),
{
    if events.len() == 0 {
        (InjectStage::Start, None)
    } else {
        let prev = run_state(pid, name, path, events.drop_last(), injected, dll);
        spec_step(pid, name, path, prev.0, events.last(), injected, dll)
    }
}

/// Whether every event reports the step that the attempt waited for (so no
/// event follows the end of the attempt).
pub open spec fn run_fits(
    pid: u32,
    name: Seq<char>,
    path: Seq<char>,
    events: Seq<InjectEvent>,
    injected: bool,
    dll: Seq<char>,
) -> bool {
    forall|k: int| 0 <= k < events.len() ==> event_fits(
        #[trigger] run_state(pid, name, path, events.take(k), injected, dll).0,
        events[k],
    )
}

/// Position of a stage in the order of the checks.
pub open spec fn stage_rank(stage: InjectStage) -> int {
    match stage {
        InjectStage::Start => 0,
        InjectStage::HookDll => 1,
        InjectStage::Image => 2,
        InjectStage::Bitness => 3,
        InjectStage::Mapping => 4,
        InjectStage::LocalMapping => 5,
        InjectStage::Process => 6,
        InjectStage::Syringe => 7,
        InjectStage::Finished => 8,
    }
}

/// Whether `e` reports a live image that passes the checks: the listed
/// path, and a live name that is no system process.
pub open spec fn is_vetted_image(e: InjectEvent, name: Seq<char>, path: Seq<char>) -> bool {
    match e {
        InjectEvent::Image(Ok((live, file_name))) => spec_paths_equivalent(live@, path)
            && !spec_is_system_process(checked_name(file_name, name)),
        _ => false,
    }
}

/// Whether `e` reports a created mapping.
pub open spec fn is_mapping_created(e: InjectEvent) -> bool {
    e matches InjectEvent::Mapping(Ok(_))
}

/// Whether `e` reports an opened process.
pub open spec fn is_process_opened(e: InjectEvent) -> bool {
    e matches InjectEvent::ProcessOpened(Ok(_))
}

/// Whether `events` holds a live image that passed the checks.
pub open spec fn has_vetted_image(events: Seq<InjectEvent>, name: Seq<char>, path: Seq<char>) -> bool {
    exists|i: int| 0 <= i < events.len() && is_vetted_image(#[trigger] events[i], name, path)
}

/// Whether `events` holds the event `e`.
pub open spec fn has_event(events: Seq<InjectEvent>, e: InjectEvent) -> bool {
    exists|i: int| 0 <= i < events.len() && #[trigger] events[i] == e
}

/// What a stage short of the end guarantees about the events so far.
pub open spec fn stage_guarantees(
    stage: InjectStage,
    events: Seq<InjectEvent>,
    name: Seq<char>,
    path: Seq<char>,
    injected: bool,
) -> bool {
    let r = stage_rank(stage);
    &&& 1 <= r <= 7 ==> !injected
    &&& 2 <= r <= 7 ==> has_event(events, InjectEvent::HookDll(true))
    &&& 3 <= r <= 7 ==> has_vetted_image(events, name, path)
    &&& 4 <= r <= 7 ==> has_event(events, InjectEvent::Bitness(true))
    &&& 6 <= r <= 7 ==> exists|i: int| 0 <= i < events.len() && is_mapping_created(#[trigger] events[i])
    &&& r == 7 ==> exists|i: int| 0 <= i < events.len() && is_process_opened(#[trigger] events[i])
}

/// Every stage short of the end keeps its guarantees.
proof fn lemma_stage_guarantees(
    pid: u32,
    name: Seq<char>,
    path: Seq<char>,
    events: Seq<InjectEvent>,
    injected: bool,
    dll: Seq<char>,
)
    requires
        run_fits(pid, name, path, events, injected, dll),
    ensures
        stage_guarantees(run_state(pid, name, path, events, injected, dll).0, events, name, path, injected),
    decreases events.len(),
{
    if events.len() > 0 {
        let front = events.drop_last();
        let n = front.len() as int;
        assert forall|k: int| 0 <= k < front.len() implies event_fits(
            #[trigger] run_state(pid, name, path, front.take(k), injected, dll).0,
            front[k],
        ) by {
            assert(front.take(k) =~= events.take(k));
            assert(event_fits(run_state(pid, name, path, events.take(k), injected, dll).0, events[k]));
        }
        lemma_stage_guarantees(pid, name, path, front, injected, dll);
        assert(events.take(n) =~= front);
        assert(event_fits(run_state(pid, name, path, events.take(n), injected, dll).0, events[n]));
        let prev = run_state(pid, name, path, front, injected, dll).0;
        let e = events.last();
        assert(events[n] == e);
        assert forall|i: int| 0 <= i < front.len() implies #[trigger] front[i] == events[i] by {}
        if has_event(front, InjectEvent::HookDll(true)) {
            let i = choose|i: int| 0 <= i < front.len() && #[trigger] front[i] == InjectEvent::HookDll(true);
            assert(events[i] == InjectEvent::HookDll(true));
        }
        if has_vetted_image(front, name, path) {
            let i = choose|i: int| 0 <= i < front.len() && is_vetted_image(#[trigger] front[i], name, path);
            assert(events[i] == front[i]);
        }
        if has_event(front, InjectEvent::Bitness(true)) {
            let i = choose|i: int| 0 <= i < front.len() && #[trigger] front[i] == InjectEvent::Bitness(true);
            assert(events[i] == InjectEvent::Bitness(true));
        }
        if exists|i: int| 0 <= i < front.len() && is_mapping_created(#[trigger] front[i]) {
            let i = choose|i: int| 0 <= i < front.len() && is_mapping_created(#[trigger] front[i]);
            assert(events[i] == front[i]);
        }
        if exists|i: int| 0 <= i < front.len() && is_process_opened(#[trigger] front[i]) {
            let i = choose|i: int| 0 <= i < front.len() && is_process_opened(#[trigger] front[i]);
            assert(events[i] == front[i]);
        }
        if e == InjectEvent::HookDll(true) {
            assert(has_event(events, e));
        }
        if is_vetted_image(e, name, path) {
            assert(is_vetted_image(events[n], name, path));
        }
        if e == InjectEvent::Bitness(true) {
            assert(has_event(events, e));
        }
        if is_mapping_created(e) {
            assert(is_mapping_created(events[n]));
        }
        if is_process_opened(e) {
            assert(is_process_opened(events[n]));
        }
    }
}

/// The guards of an injection hold on every run that ends in a successful
/// injection: the pid was not injected before, the hook DLL existed, the
/// live image was the listed path and no system process (the PID-reuse
/// guard), the process was native AMD64, the mapping was created and the
/// process opened, all before the DLL was injected.
pub proof fn lemma_injection_passes_every_check(
    pid: u32,
    name: Seq<char>,
    path: Seq<char>,
    events: Seq<InjectEvent>,
    injected: bool,
    dll: Seq<char>,
)
    requires
        run_fits(pid, name, path, events, injected, dll),
        events.len() > 0,
        events.last() matches InjectEvent::Injected(Ok(_)),
    ensures
        run_state(pid, name, path, events, injected, dll) == (InjectStage::Finished, None::<Seq<char>>),
        !injected,
        has_event(events, InjectEvent::HookDll(true)),
        has_vetted_image(events, name, path),
        has_event(events, InjectEvent::Bitness(true)),
        exists|i: int| 0 <= i < events.len() && is_mapping_created(#[trigger] events[i]),
        exists|i: int| 0 <= i < events.len() && is_process_opened(#[trigger] events[i]),
{
    let front = events.drop_last();
    let n = front.len() as int;
    assert forall|k: int| 0 <= k < front.len() implies event_fits(
        #[trigger] run_state(pid, name, path, front.take(k), injected, dll).0,
        front[k],
    ) by {
        assert(front.take(k) =~= events.take(k));
        assert(event_fits(run_state(pid, name, path, events.take(k), injected, dll).0, events[k]));
    }
    lemma_stage_guarantees(pid, name, path, front, injected, dll);
    assert(events.take(n) =~= front);
    assert(event_fits(run_state(pid, name, path, events.take(n), injected, dll).0, events[n]));
    let prev = run_state(pid, name, path, front, injected, dll).0;
    assert(prev == InjectStage::Syringe);
    assert forall|i: int| 0 <= i < front.len() implies #[trigger] front[i] == events[i] by {}
    let i = choose|i: int| 0 <= i < front.len() && #[trigger] front[i] == InjectEvent::HookDll(true);
    assert(events[i] == InjectEvent::HookDll(true));
    let j = choose|j: int| 0 <= j < front.len() && is_vetted_image(#[trigger] front[j], name, path);
    assert(events[j] == front[j]);
    let k = choose|k: int| 0 <= k < front.len() && #[trigger] front[k] == InjectEvent::Bitness(true);
    assert(events[k] == InjectEvent::Bitness(true));
    let l = choose|l: int| 0 <= l < front.len() && is_mapping_created(#[trigger] front[l]);
    assert(events[l] == front[l]);
    let m = choose|m: int| 0 <= m < front.len() && is_process_opened(#[trigger] front[m]);
    assert(events[m] == front[m]);
}

} // verus!
