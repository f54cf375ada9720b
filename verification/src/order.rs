//! Lexicographic order of strings by code point, which is the order of
//! `String`'s `Ord` (UTF-8 byte order preserves code point order), and a
//! stable sort of process rows by lowercase name.

use vstd::prelude::*;
use crate::process::ProcInfo;
use crate::text::{chars_of, to_lowercase, unicode_lowercase};

verus! {

/// `a` comes strictly before `b`: at the first difference `a` has the
/// smaller code point, or `a` is a proper prefix of `b`.
pub open spec fn seq_lt(a: Seq<char>, b: Seq<char>) -> bool
    decreases a.len(),
{
    if a.len() == 0 {
        b.len() > 0
    } else if b.len() == 0 {
        false
    } else if a[0] != b[0] {
        a[0] < b[0]
    } else {
        seq_lt(a.drop_first(), b.drop_first())
    }
}

/// No string comes before itself.
pub proof fn lemma_seq_lt_irreflexive(a: Seq<char>)
    ensures
        !seq_lt(a, a),
    decreases a.len(),
{
    if a.len() > 0 {
        lemma_seq_lt_irreflexive(a.drop_first());
    }
}

/// Of two different strings, one comes before the other, and never both.
pub proof fn lemma_seq_lt_total(a: Seq<char>, b: Seq<char>)
    ensures
        a =~= b || seq_lt(a, b) || seq_lt(b, a),
        !(seq_lt(a, b) && seq_lt(b, a)),
    decreases a.len(),
{
    if a.len() > 0 && b.len() > 0 {
        if a[0] == b[0] {
            lemma_seq_lt_total(a.drop_first(), b.drop_first());
            if a.drop_first() =~= b.drop_first() {
                assert(a =~= b) by {
                    assert forall|i: int| 0 <= i < a.len() implies a[i] == b[i] by {
                        if i > 0 {
                            assert(a[i] == a.drop_first()[i - 1]);
                            assert(b[i] == b.drop_first()[i - 1]);
                        }
                    }
                }
            }
        }
    }
}

/// The order is transitive.
pub proof fn lemma_seq_lt_transitive(a: Seq<char>, b: Seq<char>, c: Seq<char>)
    requires
        seq_lt(a, b),
        seq_lt(b, c),
    ensures
        seq_lt(a, c),
    decreases a.len(),
{
    if a.len() > 0 && b.len() > 0 && c.len() > 0 {
        if a[0] == b[0] && b[0] == c[0] {
            lemma_seq_lt_transitive(a.drop_first(), b.drop_first(), c.drop_first());
        } else {
            assert(a[0] <= b[0] && b[0] <= c[0]);
        }
    }
}

/// Whether `a` comes strictly before `b`.
pub fn lex_lt(a: &Vec<char>, b: &Vec<char>) -> (r: bool)
    ensures
        r == seq_lt(a@, b@),
{
    let mut i: usize = 0;
    assert(a@.skip(0) =~= a@ && b@.skip(0) =~= b@);
    while i < a.len() && i < b.len() && a[i] == b[i]
        invariant
            i <= a@.len(),
            i <= b@.len(),
            a@.subrange(0, i as int) =~= b@.subrange(0, i as int),
            seq_lt(a@, b@) == seq_lt(a@.skip(i as int), b@.skip(i as int)),
        decreases a@.len() - i,
    {
        assert(a@.skip(i as int).drop_first() =~= a@.skip(i + 1));
        assert(b@.skip(i as int).drop_first() =~= b@.skip(i + 1));
        i = i + 1;
    }
    if i == a.len() {
        i < b.len()
    } else if i == b.len() {
        false
    } else {
        a[i] < b[i]
    }
}

/// The sort key of a row: its lowercase name.
pub open spec fn name_key(p: ProcInfo) -> Seq<char> {
    unicode_lowercase(p.name@)
}

/// Whether `perm` lists each of `0..n` exactly once.
pub open spec fn is_permutation(perm: Seq<int>, n: nat) -> bool {
    &&& perm.len() == n
    &&& perm.no_duplicates()
    &&& forall|k: int| 0 <= k < n ==> 0 <= #[trigger] perm[k] < n
}

/// The rows of `procs`, stably sorted by lowercase name.
pub fn sort_by_lowercase_name(procs: &Vec<ProcInfo>) -> (r: Vec<ProcInfo>)
    ensures
        r@.len() == procs@.len(),
        forall|i: int, j: int| 0 <= i < j < r@.len() ==> !seq_lt(name_key(#[trigger] r@[j]), name_key(#[trigger] r@[i])),
        exists|perm: Seq<int>| {
            &&& is_permutation(perm, procs@.len())
            &&& forall|k: int| 0 <= k < r@.len() ==> {
                &&& (#[trigger] r@[k]).pid == procs@[perm[k]].pid
                &&& r@[k].name@ == procs@[perm[k]].name@
                &&& r@[k].path@ == procs@[perm[k]].path@
            }
            &&& forall|i: int, j: int| 0 <= i < j < r@.len() && name_key(#[trigger] r@[i]) == name_key(#[trigger] r@[j])
                ==> perm[i] < perm[j]
        },
{
    let n = procs.len();
    let mut keys: Vec<Vec<char>> = Vec::new();
    let mut k: usize = 0;
    while k < n
        invariant
            n == procs@.len(),
            k <= n,
            keys@.len() == k,
            forall|j: int| 0 <= j < k ==> (#[trigger] keys@[j])@ == name_key(procs@[j]),
        decreases n - k,
    {
        let lower = to_lowercase(procs[k].name.as_str());
        keys.push(chars_of(lower.as_str()));
        k = k + 1;
    }
    // Stable insertion sort of the indices by key.
    let mut idx: Vec<usize> = Vec::new();
    let mut i: usize = 0;
    while i < n
        invariant
            n == procs@.len(),
            i <= n,
            keys@.len() == n,
            forall|j: int| 0 <= j < n ==> (#[trigger] keys@[j])@ == name_key(procs@[j]),
            idx@.len() == i,
            idx@.no_duplicates(),
            forall|a: int| 0 <= a < i ==> #[trigger] idx@[a] < i,
            forall|a: int, b: int| 0 <= a < b < i ==> !seq_lt(name_key(procs@[#[trigger] idx@[b] as int]), name_key(procs@[#[trigger] idx@[a] as int])),
            forall|a: int, b: int| 0 <= a < b < i && name_key(procs@[#[trigger] idx@[a] as int]) == name_key(procs@[#[trigger] idx@[b] as int])
                ==> idx@[a] < idx@[b],
        decreases n - i,
    {
        let mut j: usize = i;
        while j > 0 && lex_lt(&keys[i], &keys[idx[j - 1]])
            invariant
                i < n,
                n == procs@.len(),
                keys@.len() == n,
                forall|q: int| 0 <= q < n ==> (#[trigger] keys@[q])@ == name_key(procs@[q]),
                idx@.len() == i,
                forall|a: int| 0 <= a < i ==> #[trigger] idx@[a] < i,
                j <= i,
                forall|p: int| j <= p < i ==> seq_lt(name_key(procs@[i as int]), name_key(procs@[#[trigger] idx@[p] as int])),
            decreases j,
        {
            j = j - 1;
        }
        let ghost old_idx = idx@;
        let ghost ki = name_key(procs@[i as int]);
        proof {
            // Every row before position j sorts at or before row i.
            assert forall|p: int| 0 <= p < j implies !seq_lt(ki, name_key(procs@[#[trigger] old_idx[p] as int])) by {
                let last = name_key(procs@[old_idx[j - 1] as int]);
                assert(!seq_lt(ki, last));
                if p < j - 1 {
                    let kp = name_key(procs@[old_idx[p] as int]);
                    assert(!seq_lt(last, kp));
                    if seq_lt(ki, kp) {
                        lemma_seq_lt_total(last, kp);
                        lemma_seq_lt_total(ki, last);
                        if last =~= kp {
                        } else {
                            lemma_seq_lt_transitive(last, ki, kp);
                            lemma_seq_lt_transitive(kp, last, ki);
                            lemma_seq_lt_total(ki, kp);
                        }
                    }
                }
            }
        }
        idx.insert(j, i);
        proof {
            assert(idx@ == old_idx.insert(j as int, i));
            assert forall|a: int| 0 <= a < i + 1 implies #[trigger] idx@[a] < i + 1 by {
                if a < j {
                    assert(idx@[a] == old_idx[a]);
                } else if a > j {
                    assert(idx@[a] == old_idx[a - 1]);
                }
            }
            assert(idx@.no_duplicates()) by {
                assert forall|a: int, b: int| 0 <= a < idx@.len() && 0 <= b < idx@.len() && a != b
                    implies idx@[a] != idx@[b] by {
                    if a != j && b != j {
                        let oa = if a < j { a } else { a - 1 };
                        let ob = if b < j { b } else { b - 1 };
                        assert(idx@[a] == old_idx[oa]);
                        assert(idx@[b] == old_idx[ob]);
                    } else if a == j {
                        let ob = if b < j { b } else { b - 1 };
                        assert(idx@[b] == old_idx[ob]);
                    } else {
                        let oa = if a < j { a } else { a - 1 };
                        assert(idx@[a] == old_idx[oa]);
                    }
                }
            }
            assert forall|a: int, b: int| 0 <= a < b < i + 1 implies
                !seq_lt(name_key(procs@[#[trigger] idx@[b] as int]), name_key(procs@[#[trigger] idx@[a] as int]))
                && (name_key(procs@[idx@[a] as int]) == name_key(procs@[idx@[b] as int]) ==> idx@[a] < idx@[b]) by {
                let ka = name_key(procs@[idx@[a] as int]);
                let kb = name_key(procs@[idx@[b] as int]);
                if b < j {
                    assert(idx@[a] == old_idx[a] && idx@[b] == old_idx[b]);
                } else if b == j {
                    assert(idx@[a] == old_idx[a]);
                    assert(!seq_lt(ki, ka));
                    assert(old_idx[a] < i);
                } else if a > j {
                    assert(idx@[a] == old_idx[a - 1] && idx@[b] == old_idx[b - 1]);
                } else if a == j {
                    assert(idx@[b] == old_idx[b - 1]);
                    assert(seq_lt(ki, kb));
                    lemma_seq_lt_total(ki, kb);
                    if ka == kb {
                        lemma_seq_lt_irreflexive(ki);
                    }
                } else {
                    assert(idx@[a] == old_idx[a] && idx@[b] == old_idx[b - 1]);
                    assert(!seq_lt(ki, ka));
                    assert(seq_lt(ki, kb));
                    lemma_seq_lt_total(ki, ka);
                    if seq_lt(kb, ka) {
                        if ki =~= ka {
                            lemma_seq_lt_total(kb, ki);
                        } else {
                            lemma_seq_lt_transitive(ka, ki, kb);
                            lemma_seq_lt_total(ka, kb);
                        }
                    }
                    if ka == kb {
                        lemma_seq_lt_total(ki, ka);
                        if !(ki =~= ka) {
                            lemma_seq_lt_total(ka, ki);
                        } else {
                            lemma_seq_lt_irreflexive(ki);
                        }
                    }
                }
            }
        }
        i = i + 1;
    }
    let mut r: Vec<ProcInfo> = Vec::new();
    let mut m: usize = 0;
    while m < n
        invariant
            n == procs@.len(),
            idx@.len() == n,
            forall|a: int| 0 <= a < n ==> #[trigger] idx@[a] < n,
            m <= n,
            r@.len() == m,
            forall|q: int| 0 <= q < m ==> {
                &&& (#[trigger] r@[q]).pid == procs@[idx@[q] as int].pid
                &&& r@[q].name@ == procs@[idx@[q] as int].name@
                &&& r@[q].path@ == procs@[idx@[q] as int].path@
            },
        decreases n - m,
    {
        r.push(procs[idx[m]].duplicate());
        m = m + 1;
    }
    let ghost perm = idx@.map_values(|x: usize| x as int);
    assert(is_permutation(perm, procs@.len()));
    assert forall|a: int, b: int| 0 <= a < b < r@.len() implies !seq_lt(name_key(#[trigger] r@[b]), name_key(#[trigger] r@[a])) by {
        assert(name_key(r@[a]) == name_key(procs@[idx@[a] as int]));
        assert(name_key(r@[b]) == name_key(procs@[idx@[b] as int]));
    }
    assert forall|a: int, b: int| 0 <= a < b < r@.len() && name_key(#[trigger] r@[a]) == name_key(#[trigger] r@[b])
        implies perm[a] < perm[b] by {
        assert(name_key(r@[a]) == name_key(procs@[idx@[a] as int]));
        assert(name_key(r@[b]) == name_key(procs@[idx@[b] as int]));
    }
    r
}

} // verus!
