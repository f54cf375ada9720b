//! Name of the shared mapping that carries the delta for one process, and
//! the kernel namespaces it is created in: `Global\` is preferred (it needs
//! elevation), `Local\` is the same-session fallback.

use vstd::prelude::*;
use crate::text::{decimal, lemma_decimal_injective, push_decimal};

verus! {

/// Prefix of every mapping name; the process id follows in decimal.
pub const MMF_PREFIX: &'static str = "TimeMocker_";

/// The mapping name for process `pid`: the prefix followed by `pid` in decimal.
pub open spec fn spec_mmf_name(pid: u32) -> Seq<char> {
    MMF_PREFIX@ + decimal(pid as nat)
}

/// Name of the mapping through which the controller and the hook in process
/// `pid` share the delta.
pub fn mmf_name_for_pid(pid: u32) -> (name: String)
    ensures
        name@ == spec_mmf_name(pid),
{
    let mut name = String::from_str(MMF_PREFIX);
    push_decimal(&mut name, pid as u64);
    name
}


/// Distinct processes never share a mapping: the name determines the pid.
pub proof fn lemma_mmf_name_injective(a: u32, b: u32)
    requires
        spec_mmf_name(a) == spec_mmf_name(b),
    ensures
        a == b,
{
    let n = MMF_PREFIX@.len();
    assert(decimal(a as nat) =~= spec_mmf_name(a).subrange(n as int, spec_mmf_name(a).len() as int));
    assert(decimal(b as nat) =~= spec_mmf_name(b).subrange(n as int, spec_mmf_name(b).len() as int));
    lemma_decimal_injective(a as nat, b as nat);
}

/// Win32 error code of a refused access (here: no right to create a
/// `Global\` object).
pub const ERROR_ACCESS_DENIED: u32 = 5u32;

/// Kernel object namespace of a mapping name.
#[derive(Clone, Copy, Debug, PartialEq, Eq, Structural)]
pub enum MappingNamespace {
    /// `Global\`: seen from every session; creating it needs elevation.
    Global,
    /// `Local\`: the creator's session only.
    Local,
}

/// The prefix that puts a name in a namespace.
pub open spec fn namespace_prefix(ns: MappingNamespace) -> Seq<char> {
    match ns {
        MappingNamespace::Global => "Global\\"@,
        MappingNamespace::Local => "Local\\"@,
    }
}

/// The name of process `pid`'s mapping in namespace `ns`.
pub open spec fn spec_namespaced_mmf_name(ns: MappingNamespace, pid: u32) -> Seq<char> {
    namespace_prefix(ns) + spec_mmf_name(pid)
}

/// Name of process `pid`'s mapping in namespace `ns`, e.g.
/// `Global\TimeMocker_1234`.
pub fn namespaced_mmf_name(ns: MappingNamespace, pid: u32) -> (name: String)
    ensures
        name@ == spec_namespaced_mmf_name(ns, pid),
{
    let mut name = match ns {
        MappingNamespace::Global => String::from_str("Global\\"),
        MappingNamespace::Local => String::from_str("Local\\"),
    };
    let base = mmf_name_for_pid(pid);
    name.append(base.as_str());
    name
}

/// The namespace the controller tries after failing to create a mapping in
/// `ns` with `last_error`: `Local\` after an access refusal in `Global\`,
/// and none otherwise.
pub fn fallback_namespace(ns: MappingNamespace, last_error: u32) -> (next: Option<MappingNamespace>)
    ensures
        next == (if ns == MappingNamespace::Global && last_error == ERROR_ACCESS_DENIED {
            Some(MappingNamespace::Local)
        } else {
            None::<MappingNamespace>
        }),
{
    if ns == MappingNamespace::Global && last_error == ERROR_ACCESS_DENIED {
        Some(MappingNamespace::Local)
    } else {
        None
    }
}

/// The names under which the hook in process `pid` looks for its mapping,
/// in the order it probes them: `Global\` first, then `Local\`.
pub fn probe_names(pid: u32) -> (names: Vec<String>)
    ensures
        names@.len() == 2,
        names@[0]@ == spec_namespaced_mmf_name(MappingNamespace::Global, pid),
        names@[1]@ == spec_namespaced_mmf_name(MappingNamespace::Local, pid),
{
    let mut names: Vec<String> = Vec::new();
    names.push(namespaced_mmf_name(MappingNamespace::Global, pid));
    names.push(namespaced_mmf_name(MappingNamespace::Local, pid));
    names
}

/// A namespaced name determines both its namespace and its pid, so the
/// controller and the hook of one process never meet another process's
/// mapping.
pub proof fn lemma_namespaced_name_injective(ns1: MappingNamespace, a: u32, ns2: MappingNamespace, b: u32)
    requires
        spec_namespaced_mmf_name(ns1, a) == spec_namespaced_mmf_name(ns2, b),
    ensures
        ns1 == ns2,
        a == b,
{
    reveal_strlit("Global\\");
    reveal_strlit("Local\\");
    let x = spec_namespaced_mmf_name(ns1, a);
    let y = spec_namespaced_mmf_name(ns2, b);
    if ns1 != ns2 {
        assert(x[0] != y[0]);
    }
    let n = namespace_prefix(ns1).len();
    assert(spec_mmf_name(a) =~= x.subrange(n as int, x.len() as int));
    assert(spec_mmf_name(b) =~= y.subrange(n as int, y.len() as int));
    lemma_mmf_name_injective(a, b);
}

} // verus!
