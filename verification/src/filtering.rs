//! Facts about sequences that are filtered and mapped in one pass.

use vstd::prelude::*;

verus! {

/// Where a function keeps every member, filtering with it is mapping.
pub proof fn lemma_filter_map_keeps_all<A, B>(s: Seq<A>, f: spec_fn(A) -> Option<B>)
    requires
        forall|i: int| 0 <= i < s.len() ==> (#[trigger] f(s[i])) is Some,
    ensures
        s.filter_map(f) == s.map_values(|a: A| f(a).unwrap()),
    decreases s.len(),
{
    let g = |a: A| f(a).unwrap();
    if s.len() == 0 {
        assert(s.filter_map(f) =~= s.map_values(g));
    } else {
        let rest = s.drop_last();
        assert forall|i: int| 0 <= i < rest.len() implies (#[trigger] f(rest[i])) is Some by {
            assert(rest[i] == s[i]);
        }
        lemma_filter_map_keeps_all(rest, f);
        assert(f(s[s.len() - 1]) is Some);
        assert(s.filter_map(f) =~= s.map_values(g));
    }
}

/// Where a function keeps no member, filtering with it leaves nothing.
pub proof fn lemma_filter_map_keeps_none<A, B>(s: Seq<A>, f: spec_fn(A) -> Option<B>)
    requires
        forall|i: int| 0 <= i < s.len() ==> (#[trigger] f(s[i])) is None,
    ensures
        s.filter_map(f) == Seq::<B>::empty(),
    decreases s.len(),
{
    if s.len() > 0 {
        let rest = s.drop_last();
        assert forall|i: int| 0 <= i < rest.len() implies (#[trigger] f(rest[i])) is None by {
            assert(rest[i] == s[i]);
        }
        lemma_filter_map_keeps_none(rest, f);
        assert(f(s[s.len() - 1]) is None);
    }
}

/// Every member of a filtered sequence comes from a member of the sequence
/// that the function keeps.
pub proof fn lemma_filter_map_origin<A, B>(s: Seq<A>, f: spec_fn(A) -> Option<B>, k: int)
    requires
        0 <= k < s.filter_map(f).len(),
    ensures
        exists|i: int| 0 <= i < s.len() && #[trigger] f(s[i]) == Some(s.filter_map(f)[k]),
    decreases s.len(),
{
    if s.len() > 0 {
        let rest = s.drop_last();
        if k < rest.filter_map(f).len() {
            lemma_filter_map_origin(rest, f, k);
            let i = choose|i: int|
                0 <= i < rest.len() && #[trigger] f(rest[i]) == Some(rest.filter_map(f)[k]);
            assert(f(s[i]) == Some(s.filter_map(f)[k]));
        } else {
            assert(f(s[s.len() - 1]) == Some(s.filter_map(f)[k]));
        }
    }
}

/// What the function keeps of a member of the sequence is a member of the
/// filtered sequence.
pub proof fn lemma_filter_map_member<A, B>(s: Seq<A>, f: spec_fn(A) -> Option<B>, i: int)
    requires
        0 <= i < s.len(),
        f(s[i]) is Some,
    ensures
        s.filter_map(f).contains(f(s[i]).unwrap()),
    decreases s.len(),
{
    let rest = s.drop_last();
    let out = s.filter_map(f);
    if i == s.len() - 1 {
        assert(out.last() == f(s[i]).unwrap());
    } else {
        lemma_filter_map_member(rest, f, i);
        let sub = rest.filter_map(f);
        let k = choose|k: int| 0 <= k < sub.len() && sub[k] == f(rest[i]).unwrap();
        assert(out[k] == f(s[i]).unwrap());
    }
}

} // verus!
