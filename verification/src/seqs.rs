//! Facts about sequences that the store's queries are stated with.

use vstd::prelude::*;

verus! {

/// The first element of `s` that satisfies `p`, if there is one.
pub open spec fn first_where<A>(s: Seq<A>, p: spec_fn(A) -> bool) -> Option<A>
    decreases s.len(),
{
    if s.len() == 0 {
        None
    } else if p(s[0]) {
        Some(s[0])
    } else {
        first_where(s.drop_first(), p)
    }
}

/// Whether some element of `s` satisfies `p`.
pub open spec fn any_where<A>(s: Seq<A>, p: spec_fn(A) -> bool) -> bool {
    exists|i: int| 0 <= i < s.len() && p(#[trigger] s[i])
}

/// The negation of a predicate.
pub open spec fn not_where<A>(p: spec_fn(A) -> bool) -> spec_fn(A) -> bool {
    |a: A| !p(a)
}

/// An element that satisfies `p` and is preceded only by elements that do
/// not is the first one that does.
pub proof fn lemma_first_where_hit<A>(s: Seq<A>, p: spec_fn(A) -> bool, i: int)
    requires
        0 <= i < s.len(),
        p(s[i]),
        forall|j: int| 0 <= j < i ==> !p(#[trigger] s[j]),
    ensures
        first_where(s, p) == Some(s[i]),
    decreases s.len(),
{
    if i > 0 {
        assert(!p(s[0]));
        let t = s.drop_first();
        assert forall|j: int| 0 <= j < i - 1 implies !p(#[trigger] t[j]) by {
            assert(t[j] == s[j + 1]);
        }
        lemma_first_where_hit(t, p, i - 1);
    }
}

/// Where no element satisfies `p`, none is the first to do so.
pub proof fn lemma_first_where_miss<A>(s: Seq<A>, p: spec_fn(A) -> bool)
    requires
        forall|j: int| 0 <= j < s.len() ==> !p(#[trigger] s[j]),
    ensures
        first_where(s, p) is None,
    decreases s.len(),
{
    if s.len() > 0 {
        let t = s.drop_first();
        assert forall|j: int| 0 <= j < t.len() implies !p(#[trigger] t[j]) by {
            assert(t[j] == s[j + 1]);
        }
        lemma_first_where_miss(t, p);
    }
}

/// What `first_where` finds is an element of the sequence, satisfies the
/// predicate, and nothing before it does; it finds nothing only where no
/// element satisfies the predicate.
pub proof fn lemma_first_where_is<A>(s: Seq<A>, p: spec_fn(A) -> bool)
    ensures
        match first_where(s, p) {
            Some(a) => exists|i: int|
                0 <= i < s.len() && #[trigger] s[i] == a && p(a) && forall|j: int|
                    0 <= j < i ==> !p(#[trigger] s[j]),
            None => forall|j: int| 0 <= j < s.len() ==> !p(#[trigger] s[j]),
        },
    decreases s.len(),
{
    if s.len() == 0 {
    } else if p(s[0]) {
        assert(s[0] == s[0]);
    } else {
        let t = s.drop_first();
        lemma_first_where_is(t, p);
        match first_where(t, p) {
            Some(a) => {
                let i = choose|i: int|
                    0 <= i < t.len() && #[trigger] t[i] == a && p(a) && forall|j: int|
                        0 <= j < i ==> !p(#[trigger] t[j]);
                assert(s[i + 1] == a);
                assert forall|j: int| 0 <= j < i + 1 implies !p(#[trigger] s[j]) by {
                    if j > 0 {
                        assert(t[j - 1] == s[j]);
                    }
                }
            },
            None => {
                assert forall|j: int| 0 <= j < s.len() implies !p(#[trigger] s[j]) by {
                    if j > 0 {
                        assert(t[j - 1] == s[j]);
                    }
                }
            },
        }
    }
}

/// Filtering the first `i + 1` elements is filtering the first `i` and then
/// deciding on the element at `i`.
pub proof fn lemma_filter_step<A>(s: Seq<A>, p: spec_fn(A) -> bool, i: int)
    requires
        0 <= i < s.len(),
    ensures
        s.take(i + 1).filter(p) == if p(s[i]) {
            s.take(i).filter(p).push(s[i])
        } else {
            s.take(i).filter(p)
        },
{
    assert(s.take(i + 1) =~= s.take(i).push(s[i]));
    s.take(i).lemma_filter_push(s[i], p);
}

/// An empty sequence has nothing to filter.
pub proof fn lemma_filter_empty<A>(s: Seq<A>, p: spec_fn(A) -> bool)
    requires
        s.len() == 0,
    ensures
        s.filter(p) == Seq::<A>::empty(),
{
    reveal(Seq::filter);
    assert(s.filter(p) =~= Seq::<A>::empty());
}

/// The elements that a filter keeps are exactly the elements that satisfy the
/// predicate, in their old order.
pub proof fn lemma_filter_members<A>(s: Seq<A>, p: spec_fn(A) -> bool)
    ensures
        forall|i: int| 0 <= i < s.filter(p).len() ==> p(#[trigger] s.filter(p)[i]),
        forall|i: int|
            0 <= i < s.filter(p).len() ==> s.contains(#[trigger] s.filter(p)[i]),
        forall|i: int| 0 <= i < s.len() && p(s[i]) ==> s.filter(p).contains(#[trigger] s[i]),
        s.filter(p).len() <= s.len(),
    decreases s.len(),
{
    reveal(Seq::filter);
    if s.len() > 0 {
        let t = s.drop_last();
        lemma_filter_members(t, p);
        let f = s.filter(p);
        let g = t.filter(p);
        assert forall|i: int| 0 <= i < f.len() implies s.contains(#[trigger] f[i]) by {
            if i < g.len() {
                assert(t.contains(g[i]));
                let k = choose|k: int| 0 <= k < t.len() && t[k] == g[i];
                assert(s[k] == g[i]);
            } else {
                assert(f[i] == s.last());
                assert(s[s.len() - 1] == f[i]);
            }
        }
        assert forall|i: int| 0 <= i < s.len() && p(s[i]) implies f.contains(
            #[trigger] s[i],
        ) by {
            if i < t.len() {
                assert(t[i] == s[i]);
                assert(g.contains(t[i]));
                let k = choose|k: int| 0 <= k < g.len() && g[k] == t[i];
                assert(f[k] == s[i]);
            } else {
                assert(f[f.len() - 1] == s[i]);
            }
        }
    }
}

/// Two predicates that agree on every element of a sequence filter it alike.
pub proof fn lemma_filter_agree<A>(s: Seq<A>, p: spec_fn(A) -> bool, q: spec_fn(A) -> bool)
    requires
        forall|i: int| 0 <= i < s.len() ==> p(#[trigger] s[i]) == q(s[i]),
    ensures
        s.filter(p) == s.filter(q),
    decreases s.len(),
{
    reveal(Seq::filter);
    if s.len() > 0 {
        let t = s.drop_last();
        assert forall|i: int| 0 <= i < t.len() implies p(#[trigger] t[i]) == q(t[i]) by {
            assert(t[i] == s[i]);
        }
        lemma_filter_agree(t, p, q);
        assert(p(s[s.len() - 1]) == q(s[s.len() - 1]));
    }
}

/// Filtering twice keeps what satisfies both predicates.
pub proof fn lemma_filter_filter<A>(s: Seq<A>, p: spec_fn(A) -> bool, q: spec_fn(A) -> bool)
    ensures
        s.filter(p).filter(q) == s.filter(|a: A| p(a) && q(a)),
    decreases s.len(),
{
    reveal(Seq::filter);
    let pq = |a: A| p(a) && q(a);
    if s.len() == 0 {
        assert(s.filter(p) =~= s);
    } else {
        let t = s.drop_last();
        lemma_filter_filter(t, p, q);
        if p(s.last()) {
            t.filter(p).lemma_filter_push(s.last(), q);
        }
    }
}

/// A filter whose predicate holds of every element keeps the sequence whole.
pub proof fn lemma_filter_all<A>(s: Seq<A>, p: spec_fn(A) -> bool)
    requires
        forall|i: int| 0 <= i < s.len() ==> p(#[trigger] s[i]),
    ensures
        s.filter(p) == s,
    decreases s.len(),
{
    reveal(Seq::filter);
    if s.len() > 0 {
        let t = s.drop_last();
        assert forall|i: int| 0 <= i < t.len() implies p(#[trigger] t[i]) by {
            assert(t[i] == s[i]);
        }
        lemma_filter_all(t, p);
        assert(p(s[s.len() - 1]));
        assert(t.push(s.last()) =~= s);
    } else {
        assert(s.filter(p) =~= s);
    }
}

/// Filtering and then mapping the first `i + 1` elements is doing so to the
/// first `i` and then deciding on the element at `i`.
pub proof fn lemma_filter_map_step<A, B>(
    s: Seq<A>,
    p: spec_fn(A) -> bool,
    f: spec_fn(A) -> B,
    i: int,
)
    requires
        0 <= i < s.len(),
    ensures
        s.take(i + 1).filter(p).map_values(f) == if p(s[i]) {
            s.take(i).filter(p).map_values(f).push(f(s[i]))
        } else {
            s.take(i).filter(p).map_values(f)
        },
{
    lemma_filter_step(s, p, i);
    if p(s[i]) {
        assert(s.take(i).filter(p).push(s[i]).map_values(f) =~= s.take(i).filter(p).map_values(
            f,
        ).push(f(s[i])));
    }
}

/// Mapping the first `i + 1` elements is mapping the first `i` and then the
/// element at `i`.
pub proof fn lemma_map_step<A, B>(s: Seq<A>, f: spec_fn(A) -> B, i: int)
    requires
        0 <= i < s.len(),
    ensures
        s.take(i + 1).map_values(f) == s.take(i).map_values(f).push(f(s[i])),
{
    assert(s.take(i + 1).map_values(f) =~= s.take(i).map_values(f).push(f(s[i])));
}

/// A filter keeps something exactly where some element satisfies the
/// predicate.
pub proof fn lemma_filter_any<A>(s: Seq<A>, p: spec_fn(A) -> bool)
    ensures
        s.filter(p).len() > 0 <==> any_where(s, p),
{
    lemma_filter_members(s, p);
    let f = s.filter(p);
    if f.len() > 0 {
        assert(p(f[0]));
        assert(s.contains(f[0]));
        let k = choose|k: int| 0 <= k < s.len() && s[k] == f[0];
        assert(p(s[k]));
    }
    if any_where(s, p) {
        let k = choose|k: int| 0 <= k < s.len() && p(#[trigger] s[k]);
        assert(f.contains(s[k]));
    }
}

/// What is kept after a removal is what was to be kept before it, where
/// nothing that is to be kept is removed.
pub proof fn lemma_filter_disjoint<A>(s: Seq<A>, gone: spec_fn(A) -> bool, keep: spec_fn(A) -> bool)
    requires
        forall|i: int| 0 <= i < s.len() && keep(#[trigger] s[i]) ==> !gone(s[i]),
    ensures
        s.filter(not_where(gone)).filter(keep) == s.filter(keep),
{
    lemma_filter_filter(s, not_where(gone), keep);
    lemma_filter_agree(s, |a: A| not_where(gone)(a) && keep(a), keep);
}

/// Two filters can be applied in either order.
pub proof fn lemma_filter_commute<A>(s: Seq<A>, p: spec_fn(A) -> bool, q: spec_fn(A) -> bool)
    ensures
        s.filter(p).filter(q) == s.filter(q).filter(p),
{
    lemma_filter_filter(s, p, q);
    lemma_filter_filter(s, q, p);
    lemma_filter_agree(s, |a: A| p(a) && q(a), |a: A| q(a) && p(a));
}

/// After a removal, nothing that was to be removed is left.
pub proof fn lemma_filter_removed<A>(s: Seq<A>, gone: spec_fn(A) -> bool)
    ensures
        !any_where(s.filter(not_where(gone)), gone),
{
    lemma_filter_members(s, not_where(gone));
}

} // verus!
