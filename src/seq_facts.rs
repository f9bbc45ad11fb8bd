//! Facts about filtering sequences that the reducer's invariants rest on.
use vstd::prelude::*;
use crate::model::ids_unique;
use crate::task::TaskView;

verus! {

broadcast use vstd::seq_lib::group_seq_properties;

/// Filtering by a predicate that every element meets keeps the sequence.
pub proof fn lemma_filter_keeps_all<A>(s: Seq<A>, p: spec_fn(A) -> bool)
    requires
        forall|i: int| 0 <= i < s.len() ==> p(#[trigger] s[i]),
    ensures
        s.filter(p) == s,
    decreases s.len(),
{
    reveal(Seq::filter);
    if s.len() > 0 {
        let rest = s.drop_last();
        assert forall|i: int| 0 <= i < rest.len() implies p(#[trigger] rest[i]) by {
            assert(rest[i] == s[i]);
        }
        lemma_filter_keeps_all(rest, p);
        assert(rest.push(s.last()) =~= s);
    }
}

/// Filtering keeps a sequence free of duplicates.
pub proof fn lemma_filter_no_duplicates<A>(s: Seq<A>, p: spec_fn(A) -> bool)
    requires
        s.no_duplicates(),
    ensures
        s.filter(p).no_duplicates(),
    decreases s.len(),
{
    reveal(Seq::filter);
    if s.len() > 0 {
        let rest = s.drop_last();
        let last = s.last();
        assert(rest.no_duplicates());
        lemma_filter_no_duplicates(rest, p);
        if p(last) {
            let f = rest.filter(p);
            if f.contains(last) {
                rest.lemma_filter_contains_rev(p, last);
                let k = choose|k: int| 0 <= k < rest.len() && rest[k] == last;
                assert(s[k] == rest[k]);
                assert(s[k] == s[s.len() - 1]);
            }
            assert(!f.contains(last));
            let g = f.push(last);
            assert forall|a: int, b: int| 0 <= a < g.len() && 0 <= b < g.len() && a != b implies g[a]
                != g[b] by {
                if a == f.len() {
                    assert(g[b] == f[b]);
                    assert(f.contains(f[b]));
                } else if b == f.len() {
                    assert(g[a] == f[a]);
                    assert(f.contains(f[a]));
                } else {
                    assert(g[a] == f[a] && g[b] == f[b]);
                }
            }
        }
    }
}

/// Filtering keeps the ids of a task sequence unique.
pub proof fn lemma_filter_ids_unique(s: Seq<TaskView>, p: spec_fn(TaskView) -> bool)
    requires
        ids_unique(s),
    ensures
        ids_unique(s.filter(p)),
    decreases s.len(),
{
    reveal(Seq::filter);
    if s.len() > 0 {
        let rest = s.drop_last();
        let last = s.last();
        assert forall|a: int, b: int|
            0 <= a < rest.len() && 0 <= b < rest.len() && a != b implies (#[trigger] rest[a]).task_id
            != (#[trigger] rest[b]).task_id by {
            assert(s[a] == rest[a] && s[b] == rest[b]);
        }
        lemma_filter_ids_unique(rest, p);
        if p(last) {
            let f = rest.filter(p);
            let g = f.push(last);
            assert forall|a: int| 0 <= a < f.len() implies (#[trigger] f[a]).task_id != last.task_id by {
                assert(f.contains(f[a]));
                rest.lemma_filter_contains_rev(p, f[a]);
                let k = choose|k: int| 0 <= k < rest.len() && rest[k] == f[a];
                assert(s[k] == rest[k]);
                assert(s[k].task_id != s[s.len() - 1].task_id);
            }
            assert forall|a: int, b: int|
                0 <= a < g.len() && 0 <= b < g.len() && a != b implies (#[trigger] g[a]).task_id
                != (#[trigger] g[b]).task_id by {
                if a == f.len() {
                    assert(f[b].task_id != last.task_id);
                } else if b == f.len() {
                    assert(f[a].task_id != last.task_id);
                } else {
                    assert(g[a] == f[a] && g[b] == f[b]);
                }
            }
        }
    }
}

} // verus!
