//! Positions in a sequence, found by a property of the element.
use vstd::prelude::*;

verus! {

/// The index of the first element with property `p`, or the length of `s` when there is none.
pub open spec fn first_where<A>(s: Seq<A>, p: spec_fn(A) -> bool) -> int
    decreases s.len(),
{
    if s.len() == 0 || p(s[0]) {
        0
    } else {
        1 + first_where(s.drop_first(), p)
    }
}

/// The index of the last element with property `p`, or -1 when there is none.
pub open spec fn last_where<A>(s: Seq<A>, p: spec_fn(A) -> bool) -> int
    decreases s.len(),
{
    if s.len() == 0 {
        -1
    } else if p(s.last()) {
        s.len() - 1
    } else {
        last_where(s.drop_last(), p)
    }
}

/// `s` with `f` applied to its first element with property `p`.
pub open spec fn change_first<A>(s: Seq<A>, p: spec_fn(A) -> bool, f: spec_fn(A) -> A) -> Seq<A> {
    let i = first_where(s, p);
    if i < s.len() {
        s.update(i, f(s[i]))
    } else {
        s
    }
}

/// An index below which nothing has property `p`, and which is the end of `s` or has it, is the
/// first.
pub proof fn lemma_first_where<A>(s: Seq<A>, p: spec_fn(A) -> bool, k: int)
    requires
        0 <= k <= s.len(),
        forall|j: int| 0 <= j < k ==> !p(#[trigger] s[j]),
        k < s.len() ==> p(s[k]),
    ensures
        first_where(s, p) == k,
    decreases s.len(),
{
    if k > 0 {
        let t = s.drop_first();
        assert(!p(s[0]));
        assert forall|j: int| 0 <= j < k - 1 implies !p(#[trigger] t[j]) by {
            assert(!p(s[j + 1]));
        }
        lemma_first_where(t, p, k - 1);
    }
}

/// What [`first_where`] finds: nothing before it has property `p`, and it does.
pub proof fn lemma_first_where_holds<A>(s: Seq<A>, p: spec_fn(A) -> bool)
    ensures
        0 <= first_where(s, p) <= s.len(),
        first_where(s, p) < s.len() ==> p(s[first_where(s, p)]),
        forall|j: int| 0 <= j < first_where(s, p) ==> !p(#[trigger] s[j]),
    decreases s.len(),
{
    if s.len() > 0 && !p(s[0]) {
        let t = s.drop_first();
        lemma_first_where_holds(t, p);
        assert forall|j: int| 0 <= j < first_where(s, p) implies !p(#[trigger] s[j]) by {
            if j > 0 {
                assert(!p(t[j - 1]));
            }
        }
    }
}

/// An index above which nothing has property `p`, and which is -1 or has it, is the last.
pub proof fn lemma_last_where<A>(s: Seq<A>, p: spec_fn(A) -> bool, k: int)
    requires
        -1 <= k < s.len(),
        forall|j: int| k < j < s.len() ==> !p(#[trigger] s[j]),
        k >= 0 ==> p(s[k]),
    ensures
        last_where(s, p) == k,
    decreases s.len(),
{
    if k < s.len() - 1 {
        let t = s.drop_last();
        assert(!p(s[s.len() - 1]));
        assert forall|j: int| k < j < t.len() implies !p(#[trigger] t[j]) by {
            assert(!p(s[j]));
        }
        lemma_last_where(t, p, k);
    }
}

/// What [`last_where`] finds: nothing after it has property `p`, and it does.
pub proof fn lemma_last_where_holds<A>(s: Seq<A>, p: spec_fn(A) -> bool)
    ensures
        -1 <= last_where(s, p) < s.len(),
        last_where(s, p) >= 0 ==> p(s[last_where(s, p)]),
        forall|j: int| last_where(s, p) < j < s.len() ==> !p(#[trigger] s[j]),
    decreases s.len(),
{
    if s.len() > 0 && !p(s.last()) {
        let t = s.drop_last();
        lemma_last_where_holds(t, p);
        assert forall|j: int| last_where(s, p) < j < s.len() implies !p(#[trigger] s[j]) by {
            if j < t.len() {
                assert(!p(t[j]));
            }
        }
    }
}

} // verus!
