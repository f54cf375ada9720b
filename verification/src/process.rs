//! Rows of the process list: building them from a snapshot, filtering them
//! by the search box, and picking the ones to auto-inject.

use vstd::prelude::*;
use crate::injection::InjectionManager;
use crate::rules::{CompiledRules, any_pattern_matches};
use crate::text::{contains_str, contains_subseq, to_lowercase, unicode_lowercase};

verus! {

/// A running process: its id, executable name and image path ("" when the
/// path is unknown).
#[derive(Debug, Clone)]
pub struct ProcInfo {
    pub pid: u32,
    pub name: String,
    pub path: String,
}

impl ProcInfo {
    /// The row for a process of the snapshot, or `None` for a process without
    /// a name (such rows are not listed); an unknown path becomes "".
    pub fn from_snapshot(pid: u32, name: String, path: Option<String>) -> (r: Option<ProcInfo>)
        ensures
            name@.len() == 0 ==> r is None,
            name@.len() != 0 ==> (r matches Some(p) && p.pid == pid && p.name@ == name@ && p.path@ == (match path {
                Some(s) => s@,
                None => Seq::<char>::empty(),
            })),
    {
        if name.as_str().is_empty() {
            return None;
        }
        let path = match path {
            Some(s) => s,
            None => String::new(),
        };
        Some(ProcInfo { pid, name, path })
    }

    /// A copy of the row.
    pub fn duplicate(&self) -> (r: ProcInfo)
        ensures
            r.pid == self.pid,
            r.name@ == self.name@,
            r.path@ == self.path@,
    {
        ProcInfo { pid: self.pid, name: self.name.clone(), path: self.path.clone() }
    }
}

/// Whether a row is shown for a search text: always for an empty search,
/// otherwise when the lowercased search occurs in the lowercased name or
/// path.
pub open spec fn spec_matches_search(name: Seq<char>, path: Seq<char>, search: Seq<char>) -> bool {
    let needle = unicode_lowercase(search);
    needle.len() == 0 || contains_subseq(unicode_lowercase(name), needle)
        || contains_subseq(unicode_lowercase(path), needle)
}

/// The search shows a row exactly when the lowercased search text is empty
/// or occurs in the lowercased name or in the lowercased path; in particular
/// a process is found by its name even when its path is unknown.
pub proof fn lemma_search_finds_name_or_path(name: Seq<char>, path: Seq<char>, search: Seq<char>)
    ensures
        unicode_lowercase(search).len() == 0 ==> spec_matches_search(name, path, search),
        contains_subseq(unicode_lowercase(name), unicode_lowercase(search)) ==> spec_matches_search(name, path, search),
        contains_subseq(unicode_lowercase(path), unicode_lowercase(search)) ==> spec_matches_search(name, path, search),
        spec_matches_search(name, path, search) ==> unicode_lowercase(search).len() == 0
            || contains_subseq(unicode_lowercase(name), unicode_lowercase(search))
            || contains_subseq(unicode_lowercase(path), unicode_lowercase(search)),
{
}

/// Whether a row is shown for the search text.
pub fn matches_search(p: &ProcInfo, search: &str) -> (b: bool)
    ensures
        b == spec_matches_search(p.name@, p.path@, search@),
        unicode_lowercase(search@).len() == 0 ==> b,
        contains_subseq(unicode_lowercase(p.name@), unicode_lowercase(search@)) ==> b,
        contains_subseq(unicode_lowercase(p.path@), unicode_lowercase(search@)) ==> b,
        b ==> unicode_lowercase(search@).len() == 0
            || contains_subseq(unicode_lowercase(p.name@), unicode_lowercase(search@))
            || contains_subseq(unicode_lowercase(p.path@), unicode_lowercase(search@)),
{
    proof {
        lemma_search_finds_name_or_path(p.name@, p.path@, search@);
    }
    let needle = to_lowercase(search);
    if needle.as_str().is_empty() {
        return true;
    }
    let name = to_lowercase(p.name.as_str());
    if contains_str(name.as_str(), needle.as_str()) {
        return true;
    }
    let path = to_lowercase(p.path.as_str());
    contains_str(path.as_str(), needle.as_str())
}

/// The rows shown for a search text, in order.
pub fn filter_processes(procs: &Vec<ProcInfo>, search: &str) -> (rows: Vec<ProcInfo>)
    ensures
        ({
            let kept = procs@.filter(|p: ProcInfo| spec_matches_search(p.name@, p.path@, search@));
            &&& rows@.len() == kept.len()
            &&& forall|i: int| 0 <= i < rows@.len() ==> {
                &&& (#[trigger] rows@[i]).pid == kept[i].pid
                &&& rows@[i].name@ == kept[i].name@
                &&& rows@[i].path@ == kept[i].path@
            }
        }),
        forall|k: int|
            0 <= k < procs@.len() && contains_subseq(
                unicode_lowercase((#[trigger] procs@[k]).name@),
                unicode_lowercase(search@),
            ) ==> exists|i: int|
                0 <= i < rows@.len() && (#[trigger] rows@[i]).pid == procs@[k].pid && rows@[i].name@ =~= procs@[k].name@
                    && rows@[i].path@ =~= procs@[k].path@,
        forall|k: int|
            0 <= k < procs@.len() && contains_subseq(
                unicode_lowercase((#[trigger] procs@[k]).path@),
                unicode_lowercase(search@),
            ) ==> exists|i: int|
                0 <= i < rows@.len() && (#[trigger] rows@[i]).pid == procs@[k].pid && rows@[i].name@ =~= procs@[k].name@
                    && rows@[i].path@ =~= procs@[k].path@,
        unicode_lowercase(search@).len() == 0 ==> rows@.len() == procs@.len(),
        forall|i: int|
            0 <= i < rows@.len() ==> unicode_lowercase(search@).len() == 0
                || contains_subseq(unicode_lowercase((#[trigger] rows@[i]).name@), unicode_lowercase(search@))
                || contains_subseq(unicode_lowercase(rows@[i].path@), unicode_lowercase(search@)),
{
    let ghost pred = |p: ProcInfo| spec_matches_search(p.name@, p.path@, search@);
    let mut rows: Vec<ProcInfo> = Vec::new();
    let mut i: usize = 0;
    while i < procs.len()
        invariant
            i <= procs@.len(),
            pred == (|p: ProcInfo| spec_matches_search(p.name@, p.path@, search@)),
            rows@.len() == procs@.take(i as int).filter(pred).len(),
            forall|k: int| 0 <= k < rows@.len() ==> {
                &&& (#[trigger] rows@[k]).pid == procs@.take(i as int).filter(pred)[k].pid
                &&& rows@[k].name@ == procs@.take(i as int).filter(pred)[k].name@
                &&& rows@[k].path@ == procs@.take(i as int).filter(pred)[k].path@
            },
        decreases procs@.len() - i,
    {
        let p = &procs[i];
        assert(procs@.take(i + 1).drop_last() =~= procs@.take(i as int));
        reveal_with_fuel(Seq::filter, 1);
        if matches_search(p, search) {
            rows.push(p.duplicate());
        }
        i = i + 1;
    }
    assert(procs@.take(procs@.len() as int) =~= procs@);
    proof {
        assert forall|k: int|
            0 <= k < procs@.len() && contains_subseq(
                unicode_lowercase((#[trigger] procs@[k]).name@),
                unicode_lowercase(search@),
            ) implies exists|i: int|
                0 <= i < rows@.len() && (#[trigger] rows@[i]).pid == procs@[k].pid && rows@[i].name@ =~= procs@[k].name@
                    && rows@[i].path@ =~= procs@[k].path@ by {
            lemma_filtered_rows_keep_match(procs@, search@, rows@, k);
        }
        assert forall|k: int|
            0 <= k < procs@.len() && contains_subseq(
                unicode_lowercase((#[trigger] procs@[k]).path@),
                unicode_lowercase(search@),
            ) implies exists|i: int|
                0 <= i < rows@.len() && (#[trigger] rows@[i]).pid == procs@[k].pid && rows@[i].name@ =~= procs@[k].name@
                    && rows@[i].path@ =~= procs@[k].path@ by {
            lemma_filtered_rows_keep_match(procs@, search@, rows@, k);
        }
        assert forall|i: int|
            0 <= i < rows@.len() implies unicode_lowercase(search@).len() == 0
                || contains_subseq(unicode_lowercase((#[trigger] rows@[i]).name@), unicode_lowercase(search@))
                || contains_subseq(unicode_lowercase(rows@[i].path@), unicode_lowercase(search@)) by {
            let pred = |p: ProcInfo| spec_matches_search(p.name@, p.path@, search@);
            procs@.lemma_filter_pred(pred, i);
            let kept = procs@.filter(pred);
            assert(rows@[i].name@ =~= kept[i].name@);
            assert(rows@[i].path@ =~= kept[i].path@);
            lemma_search_finds_name_or_path(kept[i].name@, kept[i].path@, search@);
        }
        if unicode_lowercase(search@).len() == 0 {
            let pred = |p: ProcInfo| spec_matches_search(p.name@, p.path@, search@);
            assert(procs@.filter(pred) =~= procs@) by {
                lemma_filter_all(procs@, pred);
            }
        }
    }
    rows
}

/// The search filter keeps a process whose lowercased name or path
/// contains the lowercased search text (every process, for an empty search):
/// rows listing the kept processes in order hold a copy of it.
proof fn lemma_filtered_rows_keep_match(procs: Seq<ProcInfo>, search: Seq<char>, rows: Seq<ProcInfo>, k: int)
    requires
        ({
            let kept = procs.filter(|p: ProcInfo| spec_matches_search(p.name@, p.path@, search));
            &&& rows.len() == kept.len()
            &&& forall|i: int| 0 <= i < rows.len() ==> {
                &&& (#[trigger] rows[i]).pid == kept[i].pid
                &&& rows[i].name@ == kept[i].name@
                &&& rows[i].path@ == kept[i].path@
            }
        }),
        0 <= k < procs.len(),
        unicode_lowercase(search).len() == 0
            || contains_subseq(unicode_lowercase(procs[k].name@), unicode_lowercase(search))
            || contains_subseq(unicode_lowercase(procs[k].path@), unicode_lowercase(search)),
    ensures
        exists|i: int|
            0 <= i < rows.len() && (#[trigger] rows[i]).pid == procs[k].pid && rows[i].name@ =~= procs[k].name@
                && rows[i].path@ =~= procs[k].path@,
{
    let pred = |p: ProcInfo| spec_matches_search(p.name@, p.path@, search);
    let kept = procs.filter(pred);
    lemma_search_finds_name_or_path(procs[k].name@, procs[k].path@, search);
    assert(pred(procs[k]));
    procs.lemma_filter_contains(pred, k);
    let i = choose|i: int| 0 <= i < kept.len() && kept[i] == procs[k];
    assert(rows[i].pid == procs[k].pid);
    assert(rows[i].name@ =~= procs[k].name@);
    assert(rows[i].path@ =~= procs[k].path@);
}

/// Filtering by a predicate that every element meets keeps the sequence.
proof fn lemma_filter_all(s: Seq<ProcInfo>, pred: spec_fn(ProcInfo) -> bool)
    requires
        forall|i: int| 0 <= i < s.len() ==> pred(#[trigger] s[i]),
    ensures
        s.filter(pred) == s,
    decreases s.len(),
{
    reveal_with_fuel(Seq::filter, 1);
    if s.len() > 0 {
        let front = s.drop_last();
        assert forall|i: int| 0 <= i < front.len() implies pred(#[trigger] front[i]) by {
            assert(front[i] == s[i]);
        }
        lemma_filter_all(front, pred);
        assert(pred(s.last()));
        assert(front.push(s.last()) =~= s);
    }
}

/// Indices, in order, of the listed processes to auto-inject: those not yet
/// injected whose image path or name a rule matches.
pub open spec fn spec_auto_inject_targets<H>(
    procs: Seq<ProcInfo>,
    rules: Seq<(crate::rules::PatternKind, Seq<char>)>,
    injected: Map<u32, crate::injection::InjectedProcess<H>>,
) -> Seq<int>
    decreases procs.len(),
{
    if procs.len() == 0 {
        Seq::empty()
    } else {
        let prev = spec_auto_inject_targets(procs.drop_last(), rules, injected);
        let p = procs.last();
        if !injected.contains_key(p.pid) && any_pattern_matches(rules, p.path@, p.name@) {
            prev.push(procs.len() - 1)
        } else {
            prev
        }
    }
}

/// Indices of the listed processes that the auto-inject scan injects: not
/// yet injected, and matched by a rule on path or name.
pub fn auto_inject_targets<H>(procs: &Vec<ProcInfo>, rules: &CompiledRules, manager: &InjectionManager<H>) -> (t: Vec<usize>)
    ensures
        t@.map_values(|i: usize| i as int) == spec_auto_inject_targets(procs@, rules.patterns(), manager.processes()),
        forall|k: int|
            0 <= k < procs@.len() && !manager.processes().contains_key((#[trigger] procs@[k]).pid)
                && any_pattern_matches(rules.patterns(), procs@[k].path@, procs@[k].name@) ==> t@.contains(k as usize),
        forall|j: int|
            0 <= j < t@.len() ==> {
                &&& (#[trigger] t@[j]) < procs@.len()
                &&& !manager.processes().contains_key(procs@[t@[j] as int].pid)
                &&& any_pattern_matches(rules.patterns(), procs@[t@[j] as int].path@, procs@[t@[j] as int].name@)
            },
{
    let mut t: Vec<usize> = Vec::new();
    let mut i: usize = 0;
    while i < procs.len()
        invariant
            i <= procs@.len(),
            t@.map_values(|k: usize| k as int) == spec_auto_inject_targets(procs@.take(i as int), rules.patterns(), manager.processes()),
        decreases procs@.len() - i,
    {
        let p = &procs[i];
        assert(procs@.take(i + 1).drop_last() =~= procs@.take(i as int));
        let ghost prev = t@.map_values(|k: usize| k as int);
        if !manager.is_injected(p.pid) && rules.matches(p.path.as_str(), p.name.as_str()) {
            t.push(i);
            assert(t@.map_values(|k: usize| k as int) =~= prev.push(i as int));
        }
        i = i + 1;
    }
    assert(procs@.take(procs@.len() as int) =~= procs@);
    proof {
        let ghost spec_t = spec_auto_inject_targets(procs@, rules.patterns(), manager.processes());
        lemma_auto_inject_targets_complete(procs@, rules.patterns(), manager.processes());
        lemma_auto_inject_targets_sound(procs@, rules.patterns(), manager.processes());
        assert forall|k: int|
            0 <= k < procs@.len() && !manager.processes().contains_key((#[trigger] procs@[k]).pid)
                && any_pattern_matches(rules.patterns(), procs@[k].path@, procs@[k].name@) implies t@.contains(k as usize) by {
            assert(spec_t.contains(k));
            let j = choose|j: int| 0 <= j < spec_t.len() && spec_t[j] == k;
            assert(t@.map_values(|i: usize| i as int)[j] == t@[j] as int);
            assert(t@[j] == k as usize);
        }
        assert forall|j: int| 0 <= j < t@.len() implies {
            &&& (#[trigger] t@[j]) < procs@.len()
            &&& !manager.processes().contains_key(procs@[t@[j] as int].pid)
            &&& any_pattern_matches(rules.patterns(), procs@[t@[j] as int].path@, procs@[t@[j] as int].name@)
        } by {
            assert(t@.map_values(|i: usize| i as int)[j] == t@[j] as int);
            assert(spec_t[j] == t@[j] as int);
        }
    }
    t
}


/// The auto-inject scan only picks processes that are not injected yet and
/// that a rule matches, each at most once and in list order.
pub proof fn lemma_auto_inject_targets_sound<H>(
    procs: Seq<ProcInfo>,
    rules: Seq<(crate::rules::PatternKind, Seq<char>)>,
    injected: Map<u32, crate::injection::InjectedProcess<H>>,
)
    ensures
        forall|k: int| 0 <= k < spec_auto_inject_targets(procs, rules, injected).len() ==> {
            let t = #[trigger] spec_auto_inject_targets(procs, rules, injected)[k];
            &&& 0 <= t < procs.len()
            &&& !injected.contains_key(procs[t].pid)
            &&& any_pattern_matches(rules, procs[t].path@, procs[t].name@)
        },
        forall|a: int, b: int| 0 <= a < b < spec_auto_inject_targets(procs, rules, injected).len() ==>
            spec_auto_inject_targets(procs, rules, injected)[a] < spec_auto_inject_targets(procs, rules, injected)[b],
    decreases procs.len(),
{
    if procs.len() > 0 {
        let front = procs.drop_last();
        lemma_auto_inject_targets_sound(front, rules, injected);
        let prev = spec_auto_inject_targets(front, rules, injected);
        assert forall|k: int| 0 <= k < prev.len() implies procs[#[trigger] prev[k]] == front[prev[k]] by {}
    }
}

/// The auto-inject scan misses nothing: every listed process that is not
/// injected yet and whose image path or name a rule matches is picked.
pub proof fn lemma_auto_inject_targets_complete<H>(
    procs: Seq<ProcInfo>,
    rules: Seq<(crate::rules::PatternKind, Seq<char>)>,
    injected: Map<u32, crate::injection::InjectedProcess<H>>,
)
    ensures
        forall|k: int|
            0 <= k < procs.len() && !injected.contains_key((#[trigger] procs[k]).pid)
                && any_pattern_matches(rules, procs[k].path@, procs[k].name@)
                ==> spec_auto_inject_targets(procs, rules, injected).contains(k),
    decreases procs.len(),
{
    if procs.len() > 0 {
        let front = procs.drop_last();
        lemma_auto_inject_targets_complete(front, rules, injected);
        let prev = spec_auto_inject_targets(front, rules, injected);
        let cur = spec_auto_inject_targets(procs, rules, injected);
        assert forall|k: int|
            0 <= k < procs.len() && !injected.contains_key((#[trigger] procs[k]).pid)
                && any_pattern_matches(rules, procs[k].path@, procs[k].name@) implies cur.contains(k) by {
            if k < procs.len() - 1 {
                assert(front[k] == procs[k]);
                let j = choose|j: int| 0 <= j < prev.len() && prev[j] == k;
                assert(cur[j] == prev[j]);
            } else {
                assert(cur[prev.len() as int] == k);
            }
        }
    }
}

} // verus!
