//! Verified core of a stream-processing job controller: the in-memory model
//! of one running job, the two-phase checkpoint/commit coordination protocol,
//! the compaction/cleanup scheduling rules, and the running-state transition
//! logic, together with the shared value types they are built from.

use vstd::prelude::*;

pub mod checkpoint;
pub mod controller;
pub mod metrics;
pub mod model;
pub mod persist;
pub mod rest_utils;
pub mod program;
pub mod running;

pub mod types;

verus! {

/// Number of recent checkpoint epochs that are always retained.
pub const CHECKPOINTS_TO_KEEP: u32 = 4;

/// Number of checkpoint metadata rows retained beyond the compacted ones.
pub const CHECKPOINT_ROWS_TO_KEEP: u32 = 100;

/// Cleanup is considered only on epochs divisible by this.
pub const COMPACT_EVERY: u32 = 2;

/// Index of the first element of `s` satisfying `p`, if any.
pub open spec fn find_first<T>(s: Seq<T>, p: spec_fn(T) -> bool) -> Option<int>
    decreases s.len(),
{
    if s.len() == 0 {
        None
    } else if p(s[0]) {
        Some(0)
    } else {
        match find_first(s.drop_first(), p) {
            None => None,
            Some(i) => Some(i + 1),
        }
    }
}

/// `find_first` returns exactly the first matching index.
pub proof fn lemma_find_first_at<T>(s: Seq<T>, p: spec_fn(T) -> bool, i: int)
    requires
        0 <= i < s.len(),
        forall|j: int| 0 <= j < i ==> !p(s[j]),
        p(s[i]),
    ensures
        find_first(s, p) == Some(i),
    decreases i,
{
    if i == 0 {
    } else {
        assert(forall|j: int| 0 <= j < i - 1 ==> s.drop_first()[j] == s[j + 1]);
        lemma_find_first_at(s.drop_first(), p, i - 1);
    }
}

/// `find_first` returns `None` exactly when nothing matches.
pub proof fn lemma_find_first_none<T>(s: Seq<T>, p: spec_fn(T) -> bool)
    requires
        forall|j: int| 0 <= j < s.len() ==> !p(s[j]),
    ensures
        find_first(s, p) is None,
    decreases s.len(),
{
    if s.len() > 0 {
        assert(forall|j: int| 0 <= j < s.len() - 1 ==> s.drop_first()[j] == s[j + 1]);
        lemma_find_first_none(s.drop_first(), p);
    }
}

/// A found index always names a matching element, with no match before it.
pub proof fn lemma_find_first_some<T>(s: Seq<T>, p: spec_fn(T) -> bool)
    ensures
        match find_first(s, p) {
            Some(i) => 0 <= i < s.len() && p(s[i]) && forall|j: int| 0 <= j < i ==> !p(s[j]),
            None => forall|j: int| 0 <= j < s.len() ==> !p(s[j]),
        },
    decreases s.len(),
{
    if s.len() > 0 {
        lemma_find_first_some(s.drop_first(), p);
        assert(forall|j: int| 0 <= j < s.len() - 1 ==> s.drop_first()[j] == s[j + 1]);
        if !p(s[0]) {
            match find_first(s.drop_first(), p) {
                Some(i) => {
                    assert(s[i + 1] == s.drop_first()[i]);
                    assert forall|j: int| 1 <= j < i + 1 implies !p(#[trigger] s[j]) by {
                        assert(s[j] == s.drop_first()[j - 1]);
                    }
                },
                None => {
                    assert forall|j: int| 1 <= j < s.len() implies !p(#[trigger] s[j]) by {
                        assert(s[j] == s.drop_first()[j - 1]);
                    }
                },
            }
        }
    }
}

/// Pushing onto a vector pushes the element's view onto its deep view.
pub proof fn lemma_vec_deep_view_push<T: DeepView>(
    prev: Seq<T>,
    prev_deep: Seq<T::V>,
    cur: Vec<T>,
    x: T,
)
    requires
        cur@ == prev.push(x),
        prev_deep == Seq::new(prev.len(), |i: int| prev[i].deep_view()),
    ensures
        cur.deep_view() == prev_deep.push(x.deep_view()),
{
    assert forall|i: int| 0 <= i < cur@.len() implies cur.deep_view()[i] == prev_deep.push(
        x.deep_view(),
    )[i] by {
        assert(cur.deep_view()[i] == cur@[i].deep_view());
        if i < prev.len() {
            assert(cur@[i] == prev[i]);
            assert(prev_deep[i] == prev[i].deep_view());
        } else {
            assert(cur@[i] == x);
        }
    }
    assert(cur.deep_view() =~= prev_deep.push(x.deep_view()));
}

/// Two sequences on which `p` agrees pointwise have the same first match.
pub proof fn lemma_find_first_equiv<T>(s1: Seq<T>, s2: Seq<T>, p: spec_fn(T) -> bool)
    requires
        s1.len() == s2.len(),
        forall|i: int| 0 <= i < s1.len() ==> p(s1[i]) == p(s2[i]),
    ensures
        find_first(s1, p) == find_first(s2, p),
    decreases s1.len(),
{
    if s1.len() > 0 {
        assert(forall|i: int|
            0 <= i < s1.len() - 1 ==> s1.drop_first()[i] == s1[i + 1] && s2.drop_first()[i] == s2[
                i + 1
            ]);
        lemma_find_first_equiv(s1.drop_first(), s2.drop_first(), p);
    }
}

} // verus!
