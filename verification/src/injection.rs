//! Bookkeeping of the controller's injections: which processes are injected,
//! which may never be, and a bounded log of what happened.

use std::collections::{HashMap, HashSet, VecDeque};
use vstd::prelude::*;
use crate::text::{ascii_lower, decimal, push_decimal, to_ascii_lowercase, to_lowercase, unicode_lowercase};

verus! {

broadcast use vstd::std_specs::hash::group_hash_axioms;

/// Most lines the log keeps; older lines are dropped first.
pub const LOG_CAP: usize = 1000;

/// PE machine value of AMD64 images.
pub const IMAGE_FILE_MACHINE_AMD64: u16 = 0x8664u16;

/// PE machine value that `IsWow64Process2` reports for a native process.
pub const IMAGE_FILE_MACHINE_UNKNOWN: u16 = 0u16;

/// Lowercase names of the Windows processes that must never be injected.
pub open spec fn system_process_names() -> Seq<Seq<char>> {
    seq![
        "system"@,
        "registry"@,
        "memory compression"@,
        "smss.exe"@,
        "csrss.exe"@,
        "wininit.exe"@,
        "winlogon.exe"@,
        "services.exe"@,
        "lsass.exe"@,
        "svchost.exe"@,
        "audiodg.exe"@,
        "dwm.exe"@,
        "fontdrvhost.exe"@,
        "msmpeng.exe"@,
        "nissrv.exe"@,
        "securityhealthservice.exe"@,
    ]
}

/// The names of `system_process_names`, as strings.
fn system_process_exclude() -> (v: Vec<&'static str>)
    ensures
        v@.len() == system_process_names().len(),
        forall|i: int| 0 <= i < v@.len() ==> #[trigger] v@[i]@ == system_process_names()[i],
{
    vec![
        "system",
        "registry",
        "memory compression",
        "smss.exe",
        "csrss.exe",
        "wininit.exe",
        "winlogon.exe",
        "services.exe",
        "lsass.exe",
        "svchost.exe",
        "audiodg.exe",
        "dwm.exe",
        "fontdrvhost.exe",
        "msmpeng.exe",
        "nissrv.exe",
        "securityhealthservice.exe",
    ]
}

/// Whether a process name, compared without ASCII case, names a critical
/// system process.
pub open spec fn spec_is_system_process(name: Seq<char>) -> bool {
    system_process_names().contains(ascii_lower(name))
}

/// Whether a process with this executable name must never be injected: its
/// ASCII-lowercased name is one of the critical system processes.
pub fn is_system_process(name: &str) -> (b: bool)
    ensures
        b == spec_is_system_process(name@),
{
    let lower = to_ascii_lowercase(name);
    let names = system_process_exclude();
    let mut i: usize = 0;
    while i < names.len()
        invariant
            i <= names@.len(),
            names@.len() == system_process_names().len(),
            forall|j: int| 0 <= j < names@.len() ==> #[trigger] names@[j]@ == system_process_names()[j],
            lower@ == ascii_lower(name@),
            forall|j: int| 0 <= j < i ==> system_process_names()[j] != lower@,
        decreases names@.len() - i,
    {
        let candidate = String::from_str(names[i]);
        if candidate == lower {
            assert(system_process_names()[i as int] == lower@);
            return true;
        }
        i = i + 1;
    }
    proof {
        if system_process_names().contains(lower@) {
            let j = choose|j: int| 0 <= j < system_process_names().len() && system_process_names()[j] == lower@;
            assert(system_process_names()[j] == lower@);
        }
    }
    false
}

/// The system-process check ignores ASCII case: lowercasing the name first
/// changes nothing.
pub proof fn lemma_system_process_ignores_ascii_case(name: Seq<char>)
    ensures
        spec_is_system_process(ascii_lower(name)) == spec_is_system_process(name),
{
    assert(ascii_lower(ascii_lower(name)) =~= ascii_lower(name));
}

/// Whether two paths name the same file, compared without Unicode case.
pub open spec fn spec_paths_equivalent(a: Seq<char>, b: Seq<char>) -> bool {
    unicode_lowercase(a) == unicode_lowercase(b)
}

/// Whether two paths are equal once both are lowercased (Unicode-aware, so
/// that non-ASCII case differences do not count).
pub fn paths_equivalent(a: &str, b: &str) -> (r: bool)
    ensures
        r == spec_paths_equivalent(a@, b@),
{
    let la = to_lowercase(a);
    let lb = to_lowercase(b);
    la == lb
}

/// Path equivalence is an equivalence relation.
pub proof fn lemma_paths_equivalent_is_equivalence(a: Seq<char>, b: Seq<char>, c: Seq<char>)
    ensures
        spec_paths_equivalent(a, a),
        spec_paths_equivalent(a, b) ==> spec_paths_equivalent(b, a),
        spec_paths_equivalent(a, b) && spec_paths_equivalent(b, c) ==> spec_paths_equivalent(a, c),
{
}

/// Whether a process is native AMD64 (not running under WOW64), from the two
/// machine values that `IsWow64Process2` reports.
pub fn is_native_x64_machines(process_machine: u16, native_machine: u16) -> (b: bool)
    ensures
        b == (process_machine == IMAGE_FILE_MACHINE_UNKNOWN && native_machine == IMAGE_FILE_MACHINE_AMD64),
{
    process_machine == IMAGE_FILE_MACHINE_UNKNOWN && native_machine == IMAGE_FILE_MACHINE_AMD64
}

/// The log after appending `line` to `log` and dropping the oldest lines
/// beyond `LOG_CAP`.
pub open spec fn spec_log_after_push(log: Seq<String>, line: String) -> Seq<String> {
    let full = log.push(line);
    if full.len() > LOG_CAP {
        full.subrange(full.len() - LOG_CAP, full.len() as int)
    } else {
        full
    }
}

/// Appends a line to a log and drops the oldest lines until at most
/// `LOG_CAP` remain.
pub fn push_bounded(log: &mut VecDeque<String>, line: String)
    ensures
        final(log)@ == spec_log_after_push(old(log)@, line),
{
    let ghost full = old(log)@.push(line);
    log.push_back(line);
    while log.len() > LOG_CAP
        invariant
            full.len() >= log@.len(),
            log@ == full.subrange(full.len() - log@.len(), full.len() as int),
            log@.len() >= LOG_CAP || log@ == full,
        decreases log@.len(),
    {
        log.pop_front();
    }
    assert(log@ =~= spec_log_after_push(old(log)@, line));
}

/// The log never holds more than `LOG_CAP` lines, and the newest line is
/// always last.
pub proof fn lemma_log_bounded(log: Seq<String>, line: String)
    ensures
        spec_log_after_push(log, line).len() <= LOG_CAP,
        spec_log_after_push(log, line).last() == line,
        log.len() < LOG_CAP ==> spec_log_after_push(log, line) == log.push(line),
{
}


/// A process the controller injected: its identity when injected and the
/// handle through which its delta is written.
pub struct InjectedProcess<H> {
    pub pid: u32,
    pub name: String,
    pub path: String,
    pub handle: H,
}

/// Why the controller refuses to inject a process it has just looked at.
#[derive(Debug)]
pub enum InjectRefusal {
    /// The live image of the process is not the path that was listed
    /// (the pid was probably reused).
    ImageMismatch { expected: String, live: String },
    /// The process is a critical system process; its live name.
    SystemProcess(String),
}

/// The hook DLL is not an AMD64 image; the machine value it has.
#[derive(Debug, Clone, Copy, PartialEq, Eq, Structural)]
pub struct WrongHookMachine {
    pub machine: u16,
}

/// The name a process is checked under: the file name of its live image
/// path, or the name from the process list when the path has none.
pub open spec fn checked_name(live_file_name: Option<String>, snapshot_name: Seq<char>) -> Seq<char> {
    match live_file_name {
        Some(n) => n@,
        None => snapshot_name,
    }
}

/// Checks a process right before injection, from its live image path (as
/// queried now) and the file name of that path: the live path must be the
/// listed path (else the pid was reused), and the live name must not be a
/// critical system process. Returns the live name.
pub fn vet_live_image(
    expected_path: &str,
    live_path: &str,
    live_file_name: Option<String>,
    snapshot_name: &str,
) -> (r: Result<String, InjectRefusal>)
    ensures
        !spec_paths_equivalent(live_path@, expected_path@) ==> (r matches Err(InjectRefusal::ImageMismatch { expected, live })
            && expected@ == expected_path@ && live@ == live_path@),
        spec_paths_equivalent(live_path@, expected_path@) ==> {
            let name = checked_name(live_file_name, snapshot_name@);
            &&& spec_is_system_process(name) ==> (r matches Err(InjectRefusal::SystemProcess(n)) && n@ == name)
            &&& !spec_is_system_process(name) ==> (r matches Ok(n) && n@ == name)
        },
{
    if !paths_equivalent(live_path, expected_path) {
        return Err(InjectRefusal::ImageMismatch {
            expected: String::from_str(expected_path),
            live: String::from_str(live_path),
        });
    }
    let live_name = match live_file_name {
        Some(n) => n,
        None => String::from_str(snapshot_name),
    };
    if is_system_process(live_name.as_str()) {
        return Err(InjectRefusal::SystemProcess(live_name));
    }
    Ok(live_name)
}

/// "Injected into [pid] name".
pub open spec fn injected_line(pid: u32, name: Seq<char>) -> Seq<char> {
    "Injected into ["@ + decimal(pid as nat) + "] "@ + name
}

/// "Disabled [pid] name".
pub open spec fn disabled_line(pid: u32, name: Seq<char>) -> Seq<char> {
    "Disabled ["@ + decimal(pid as nat) + "] "@ + name
}

/// "inject pid=PID (name) failed: reason".
pub open spec fn failure_line(pid: u32, name: Seq<char>, reason: Seq<char>) -> Seq<char> {
    "inject pid="@ + decimal(pid as nat) + " ("@ + name + ") failed: "@ + reason
}

/// "warn: MMF name pre-existed (stale prior session?)".
pub open spec fn stale_mapping_line(mmf_name: Seq<char>) -> Seq<char> {
    "warn: MMF "@ + mmf_name + " pre-existed (stale prior session?)"@
}

/// Builds `head` + decimal(`pid`) + `mid` + `name`.
pub(crate) fn pid_line(head: &str, pid: u32, mid: &str, name: &str) -> (line: String)
    ensures
        line@ == head@ + decimal(pid as nat) + mid@ + name@,
{
    let mut line = String::from_str(head);
    push_decimal(&mut line, pid as u64);
    line.append(mid);
    line.append(name);
    line
}

/// The processes injected so far (by pid), the hook DLL they were injected
/// with, and the log of injection events.
pub struct InjectionManager<H> {
    injected: HashMap<u32, InjectedProcess<H>>,
    hook_dll_path: String,
    pub log: VecDeque<String>,
}

impl<H> InjectionManager<H> {
    /// The injected processes, by pid.
    pub closed spec fn processes(&self) -> Map<u32, InjectedProcess<H>> {
        self.injected@
    }

    /// The lines of the log, oldest first.
    pub closed spec fn log_lines(&self) -> Seq<String> {
        self.log@
    }

    /// The path of the hook DLL.
    pub closed spec fn spec_hook_dll_path(&self) -> Seq<char> {
        self.hook_dll_path@
    }

    /// Well-formed: each process is kept under its own pid, and the log
    /// holds at most `LOG_CAP` lines.
    pub closed spec fn wf(&self) -> bool {
        &&& forall|k: u32| #[trigger] self.injected@.contains_key(k) ==> self.injected@[k].pid == k
        &&& self.log@.len() <= LOG_CAP
    }

    /// A manager with nothing injected and an empty log, for the hook DLL at
    /// `hook_dll_path`. `hook_dll_machine` is the PE machine value read from
    /// that DLL when it exists; any value but AMD64 is refused up front, so
    /// that a wrong DLL fails loudly at startup rather than at injection.
    pub fn new(hook_dll_path: String, hook_dll_machine: Option<u16>) -> (r: Result<Self, WrongHookMachine>)
        ensures
            match hook_dll_machine {
                Some(m) if m != IMAGE_FILE_MACHINE_AMD64 => r matches Err(e) && e.machine == m,
                _ => r matches Ok(mgr) && mgr.processes() == Map::<u32, InjectedProcess<H>>::empty()
                    && mgr.log_lines().len() == 0 && mgr.spec_hook_dll_path() == hook_dll_path@ && mgr.wf(),
            },
    {
        if let Some(m) = hook_dll_machine {
            if m != IMAGE_FILE_MACHINE_AMD64 {
                return Err(WrongHookMachine { machine: m });
            }
        }
        Ok(InjectionManager { injected: HashMap::new(), hook_dll_path, log: VecDeque::new() })
    }

    /// The path of the hook DLL.
    pub fn hook_dll_path(&self) -> (p: &str)
        ensures
            p@ == self.spec_hook_dll_path(),
    {
        self.hook_dll_path.as_str()
    }

    /// Whether process `pid` is injected.
    pub fn is_injected(&self, pid: u32) -> (b: bool)
        ensures
            b == self.processes().contains_key(pid),
    {
        self.injected.contains_key(&pid)
    }

    /// The injected processes, each once, in no particular order.
    pub fn iter(&self) -> (r: Vec<&InjectedProcess<H>>)
        ensures
            r@.len() == self.processes().dom().len(),
            r@.unref().to_set() == self.processes().values(),
    {
        let mut r: Vec<&InjectedProcess<H>> = Vec::new();
        for v in it: self.injected.values()
            invariant
                it.seq().unref().to_set() == self.injected@.values(),
                it.seq().len() == self.injected@.dom().len(),
                r@ == it.seq().take(it.index() as int),
                it.index() == it.seq().len() ==> r@.unref().to_set() == self.injected@.values()
                    && r@.len() == self.injected@.dom().len(),
        {
            r.push(v);
            assert(r@ =~= it.seq().take(it.index() + 1));
            assert(it.index() + 1 == it.seq().len() ==> it.seq().take(it.index() + 1) =~= it.seq());
        }
        r
    }

    /// Appends a line to the log, keeping at most `LOG_CAP` lines.
    pub fn log_push(&mut self, line: String)
        ensures
            final(self).log_lines() == spec_log_after_push(old(self).log_lines(), line),
            final(self).processes() == old(self).processes(),
            final(self).spec_hook_dll_path() == old(self).spec_hook_dll_path(),
        old(self).wf() ==> final(self).wf(),
    {
        push_bounded(&mut self.log, line);
    }

    /// Records a completed injection of `pid`: logs it and keeps its handle.
    pub fn record_injected(&mut self, pid: u32, name: &str, path: &str, handle: H)
        ensures
            final(self).processes() == old(self).processes().insert(
                pid,
                InjectedProcess { pid, name: final(self).processes()[pid].name, path: final(self).processes()[pid].path, handle },
            ),
            final(self).processes()[pid].name@ == name@,
            final(self).processes()[pid].path@ == path@,
            final(self).log_lines() == spec_log_after_push(old(self).log_lines(), final(self).log_lines().last()),
            final(self).log_lines().last()@ == injected_line(pid, name@),
            final(self).spec_hook_dll_path() == old(self).spec_hook_dll_path(),
            old(self).wf() ==> final(self).wf(),
    {
        let line = pid_line("Injected into [", pid, "] ", name);
        let ghost l = line;
        self.log_push(line);
        proof {
            lemma_log_bounded(old(self).log@, l);
        }
        let entry = InjectedProcess { pid, name: String::from_str(name), path: String::from_str(path), handle };
        self.injected.insert(pid, entry);
    }

    /// Logs a failed injection of `pid` with the reason.
    pub fn log_failure(&mut self, pid: u32, name: &str, reason: &str)
        ensures
            final(self).processes() == old(self).processes(),
            final(self).log_lines() == spec_log_after_push(old(self).log_lines(), final(self).log_lines().last()),
            final(self).log_lines().last()@ == failure_line(pid, name@, reason@),
            final(self).spec_hook_dll_path() == old(self).spec_hook_dll_path(),
            old(self).wf() ==> final(self).wf(),
    {
        let mut line = pid_line("inject pid=", pid, " (", name);
        line.append(") failed: ");
        line.append(reason);
        let ghost l = line;
        self.log_push(line);
        proof {
            lemma_log_bounded(old(self).log_lines(), l);
        }
    }

    /// Logs that the shared mapping of a process already existed before the
    /// controller created it (a stale prior session).
    pub fn log_stale_mapping(&mut self, mmf_name: &str)
        ensures
            final(self).processes() == old(self).processes(),
            final(self).log_lines() == spec_log_after_push(old(self).log_lines(), final(self).log_lines().last()),
            final(self).log_lines().last()@ == stale_mapping_line(mmf_name@),
            final(self).spec_hook_dll_path() == old(self).spec_hook_dll_path(),
            old(self).wf() ==> final(self).wf(),
    {
        let mut line = String::from_str("warn: MMF ");
        line.append(mmf_name);
        line.append(" pre-existed (stale prior session?)");
        let ghost l = line;
        self.log_push(line);
        proof {
            lemma_log_bounded(old(self).log_lines(), l);
        }
    }

    /// Forgets process `pid` and logs it; returns its entry, whose delta the
    /// caller then zeroes so that the process sees real time again (the hook
    /// stays loaded).
    pub fn disable(&mut self, pid: u32) -> (removed: Option<InjectedProcess<H>>)
        ensures
            final(self).processes() == old(self).processes().remove(pid),
            final(self).spec_hook_dll_path() == old(self).spec_hook_dll_path(),
            old(self).wf() ==> final(self).wf(),
            match removed {
                Some(p) => {
                    &&& old(self).processes().contains_key(pid)
                    &&& p == old(self).processes()[pid]
                    &&& final(self).log_lines().last()@ == disabled_line(pid, p.name@)
                    &&& final(self).log_lines() == spec_log_after_push(old(self).log_lines(), final(self).log_lines().last())
                },
                None => {
                    &&& !old(self).processes().contains_key(pid)
                    &&& final(self).log_lines() == old(self).log_lines()
                },
            },
    {
        let removed = self.injected.remove(&pid);
        if let Some(p) = &removed {
            let line = pid_line("Disabled [", pid, "] ", p.name.as_str());
            let ghost l = line;
            self.log_push(line);
            proof {
                lemma_log_bounded(old(self).log_lines(), l);
            }
        }
        removed
    }

    /// Forgets every process whose pid is not in `alive` (it has exited).
    pub fn prune_dead(&mut self, alive: &HashSet<u32>)
        ensures
            final(self).processes() == old(self).processes().restrict(alive@),
            final(self).log_lines() == old(self).log_lines(),
            final(self).spec_hook_dll_path() == old(self).spec_hook_dll_path(),
            old(self).wf() ==> final(self).wf(),
    {
        broadcast use vstd::seq_lib::group_seq_properties;
        let mut dead: Vec<u32> = Vec::new();
        let ghost mut seen: Set<u32> = Set::empty();
        for k in it: self.injected.keys()
            invariant
                it.seq().unref().to_set() == self.injected@.dom(),
                seen == it.seq().take(it.index() as int).unref().to_set(),
                it.index() == it.seq().len() ==> seen == self.injected@.dom(),
                forall|p: u32| #[trigger] dead@.contains(p)
                    <==> (seen.contains(p) && !alive@.contains(p)),
        {
            let pid: u32 = *k;
            let ghost prefix = it.seq().take(it.index() as int).unref();
            assert(it.seq().take(it.index() + 1).unref() =~= prefix + seq![pid]);
            let ghost old_seen = seen;
            proof {
                Seq::lemma_to_set_insert_commutes(prefix, pid);
                seen = seen.insert(pid);
            }
            assert(it.index() + 1 == it.seq().len() ==> it.seq().take(it.index() + 1) =~= it.seq());
            let is_alive = alive.contains(&pid);
            assert(is_alive == alive@.contains(pid));
            let ghost old_dead = dead@;
            if !is_alive {
                dead.push(pid);
            }
            assert forall|p: u32| #[trigger] dead@.contains(p)
                <==> (seen.contains(p) && !alive@.contains(p)) by {
                assert(seen.contains(p) == (old_seen.contains(p) || p == pid));
                assert(old_dead.contains(p) == (old_seen.contains(p) && !alive@.contains(p)));
                if !is_alive {
                    assert(dead@ == old_dead.push(pid));
                    if p == pid {
                        assert(dead@[old_dead.len() as int] == pid);
                    } else if dead@.contains(p) {
                        let j = choose|j: int| 0 <= j < dead@.len() && dead@[j] == p;
                        assert(old_dead[j] == p);
                    } else if old_dead.contains(p) {
                        let j = choose|j: int| 0 <= j < old_dead.len() && old_dead[j] == p;
                        assert(dead@[j] == p);
                    }
                }
            }
        }
        let ghost before = self.injected@;
        let mut i: usize = 0;
        while i < dead.len()
            invariant
                i <= dead@.len(),
                forall|p: u32| #[trigger] dead@.contains(p) <==> (before.dom().contains(p) && !alive@.contains(p)),
                self.injected@ == before.remove_keys(dead@.take(i as int).to_set()),
                self.log@ == old(self).log_lines(),
                before == old(self).injected@,
                self.hook_dll_path == old(self).hook_dll_path,
            decreases dead@.len() - i,
        {
            let pid = dead[i];
            self.injected.remove(&pid);
            assert(dead@.take(i + 1) =~= dead@.take(i as int) + seq![pid]);
            proof {
                Seq::lemma_to_set_insert_commutes(dead@.take(i as int), pid);
            }
            assert(self.injected@ =~= before.remove_keys(dead@.take(i + 1).to_set()));
            i = i + 1;
        }
        assert(dead@.take(dead@.len() as int) =~= dead@);
        assert(self.injected@ =~= before.restrict(alive@));
    }
}

} // verus!
