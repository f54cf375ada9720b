# time_mocker

Verified core of TimeMocker, a Windows tool that fakes the time seen by running
processes. A hook DLL injected into a process detours five Win32 time functions
and returns the real time shifted by a delta (100-ns FILETIME ticks); the
controller publishes that delta per process through a named shared mapping
`Global\TimeMocker_<pid>` (or `Local\TimeMocker_<pid>` when it may not create
global objects); the hook probes both names.

Layout:

- `src/` — the library, verified with Verus:
  - `naming`: the mapping name of a process, in the `Global\` namespace or
    the `Local\` fallback (and that a name determines namespace and pid);
  - `types`: the mapping's payload and the outcome of creating it;
  - `ticks`: FILETIME halves and tick counts (both conversions are inverse);
  - `hook`: what the hook computes on every call (saturating shift, the
    `NtQuerySystemTime` outcome, the local-time fallback, the install report);
  - `clock`: Unix microseconds to ticks, the delta for a picked fake time;
  - `calendar`: valid dates and times, and the chrono calls on them;
  - `picker`: the date picker's state, month navigation, calendar grid and
    day shifting;
  - `injection`: system-process and path checks, the injection bookkeeping and
    its bounded log;
  - `attempt`: one injection attempt as a state machine that the controller
    drives through its checks and Win32 steps;
  - `rules`: glob / regex auto-inject rules (globset, regex);
  - `process`, `order`: process rows, search filter, auto-inject targets, and
    their stable sort by lowercase name;
  - `pe`: the machine field of a PE image;
  - `format`, `text`: text of samples, decimal and UTF-16 encodings, string
    helpers.
- `tests/` — tests of the library.
- `app/` — the Windows program around it: Win32 shared mapping, process
  queries, dll-syringe injection, the egui controller, the hook DLL's detours
  (retour) and the test target.
