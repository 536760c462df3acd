//! Lists gathered item by item: what a rule yields for each position,
//! laid end to end.

use vstd::prelude::*;

verus! {

/// What `rule` yields for the positions below `n`, in order.
pub open spec fn gather<A>(n: int, rule: spec_fn(int) -> Seq<A>) -> Seq<A> {
    Seq::new(n as nat, rule).flatten()
}

/// Flattening one more list appends that list.
pub proof fn lemma_flatten_step<A>(n: nat, f: spec_fn(int) -> Seq<A>)
    ensures
        Seq::new(n + 1, f).flatten() == Seq::new(n, f).flatten() + f(n as int),
        Seq::new(0, f).flatten() == Seq::<A>::empty(),
{
    assert(Seq::new(n + 1, f) =~= Seq::new(n, f).push(f(n as int)));
    Seq::new(n, f).lemma_flatten_push(f(n as int));
}

/// Lists that agree position by position flatten alike.
pub proof fn lemma_flatten_agree<A>(n: nat, f: spec_fn(int) -> Seq<A>, g: spec_fn(int) -> Seq<A>)
    requires
        forall|k: int| 0 <= k < n ==> #[trigger] f(k) == g(k),
    ensures
        Seq::new(n, f).flatten() == Seq::new(n, g).flatten(),
{
    assert(Seq::new(n, f) =~= Seq::new(n, g));
}

/// Empty lists at the end add nothing to what is flattened.
pub proof fn lemma_flatten_pad<A>(n: nat, extra: nat, f: spec_fn(int) -> Seq<A>)
    requires
        forall|k: int| n <= k < n + extra ==> #[trigger] f(k) == Seq::<A>::empty(),
    ensures
        Seq::new(n + extra, f).flatten() == Seq::new(n, f).flatten(),
    decreases extra,
{
    if extra > 0 {
        lemma_flatten_pad(n, (extra - 1) as nat, f);
        lemma_flatten_step((n + extra - 1) as nat, f);
        assert(f(n + extra - 1) == Seq::<A>::empty());
        assert(Seq::new((n + extra - 1) as nat, f).flatten() + Seq::<A>::empty() =~= Seq::new(
            (n + extra - 1) as nat,
            f,
        ).flatten());
    }
}

/// Where one list gains an item and the others stay, the flattened whole
/// gains that item.
pub proof fn lemma_flatten_insert<A>(
    n: nat,
    f: spec_fn(int) -> Seq<A>,
    g: spec_fn(int) -> Seq<A>,
    at: int,
    x: A,
)
    requires
        0 <= at < n,
        forall|k: int| 0 <= k < n && k != at ==> #[trigger] f(k) == g(k),
        g(at).to_multiset() == f(at).to_multiset().insert(x),
    ensures
        Seq::new(n, g).flatten().to_multiset() == Seq::new(n, f).flatten().to_multiset().insert(x),
    decreases n,
{
    let m = (n - 1) as nat;
    lemma_flatten_step(m, f);
    lemma_flatten_step(m, g);
    let fa = Seq::new(m, f).flatten();
    let ga = Seq::new(m, g).flatten();
    vstd::seq_lib::lemma_multiset_commutative(fa, f(m as int));
    vstd::seq_lib::lemma_multiset_commutative(ga, g(m as int));
    if at == m {
        lemma_flatten_agree(m, f, g);
        assert(ga.to_multiset().add(f(at).to_multiset().insert(x)) =~= fa.to_multiset().add(
            f(at).to_multiset(),
        ).insert(x));
    } else {
        lemma_flatten_insert(m, f, g, at, x);
        assert(fa.to_multiset().insert(x).add(f(m as int).to_multiset()) =~= fa.to_multiset().add(
            f(m as int).to_multiset(),
        ).insert(x));
    }
}

/// An item is in the flattened whole exactly when one of the lists holds it.
pub proof fn lemma_flatten_contains<A>(n: nat, f: spec_fn(int) -> Seq<A>, x: A)
    ensures
        Seq::new(n, f).flatten().contains(x) <==> exists|k: int| 0 <= k < n && (#[trigger] f(k)).contains(x),
    decreases n,
{
    if n == 0 {
        lemma_flatten_step(0, f);
    } else {
        let m = (n - 1) as nat;
        lemma_flatten_step(m, f);
        lemma_flatten_contains(m, f, x);
        let a = Seq::new(m, f).flatten();
        let b = f(m as int);
        if (a + b).contains(x) {
            let i = choose|i: int| 0 <= i < (a + b).len() && (a + b)[i] == x;
            if i < a.len() {
                assert(a[i] == x);
                assert(a.contains(x));
            } else {
                assert(b[i - a.len()] == x);
                assert(b.contains(x));
            }
        }
        if exists|k: int| 0 <= k < n && (#[trigger] f(k)).contains(x) {
            let k = choose|k: int| 0 <= k < n && (#[trigger] f(k)).contains(x);
            if k < m {
                assert(a.contains(x));
                let i = choose|i: int| 0 <= i < a.len() && a[i] == x;
                assert((a + b)[i] == x);
            } else {
                let i = choose|i: int| 0 <= i < b.len() && b[i] == x;
                assert((a + b)[a.len() + i] == x);
            }
        }
    }
}

/// Filtering what was flattened is flattening what was filtered.
pub proof fn lemma_flatten_filter<A>(
    n: nat,
    f: spec_fn(int) -> Seq<A>,
    g: spec_fn(int) -> Seq<A>,
    keep: spec_fn(A) -> bool,
)
    requires
        forall|k: int| 0 <= k < n ==> #[trigger] g(k) == f(k).filter(keep),
    ensures
        Seq::new(n, g).flatten() == Seq::new(n, f).flatten().filter(keep),
    decreases n,
{
    if n == 0 {
        lemma_flatten_step(0, f);
        lemma_flatten_step(0, g);
        Seq::<A>::empty().lemma_filter_len(keep);
        assert(Seq::<A>::empty().filter(keep) =~= Seq::<A>::empty());
    } else {
        let m = (n - 1) as nat;
        lemma_flatten_filter(m, f, g, keep);
        lemma_flatten_step(m, f);
        lemma_flatten_step(m, g);
        Seq::filter_distributes_over_add(Seq::new(m, f).flatten(), f(m as int), keep);
    }
}

/// A filter that every item passes changes nothing.
pub proof fn lemma_filter_all<A>(s: Seq<A>, keep: spec_fn(A) -> bool)
    requires
        forall|i: int| 0 <= i < s.len() ==> keep(#[trigger] s[i]),
    ensures
        s.filter(keep) == s,
    decreases s.len(),
{
    if s.len() == 0 {
        s.lemma_filter_len(keep);
        assert(s.filter(keep) =~= s);
    } else {
        let front = s.drop_last();
        lemma_filter_all(front, keep);
        front.lemma_filter_push(s.last(), keep);
        assert(front.push(s.last()) =~= s);
    }
}

/// Two filters that agree on every item of a list give the same list.
pub proof fn lemma_filter_agree<A>(s: Seq<A>, p: spec_fn(A) -> bool, q: spec_fn(A) -> bool)
    requires
        forall|i: int| 0 <= i < s.len() ==> p(#[trigger] s[i]) == q(s[i]),
    ensures
        s.filter(p) == s.filter(q),
    decreases s.len(),
{
    if s.len() == 0 {
        s.lemma_filter_len(p);
        s.lemma_filter_len(q);
        assert(s.filter(p) =~= s.filter(q));
    } else {
        let front = s.drop_last();
        lemma_filter_agree(front, p, q);
        front.lemma_filter_push(s.last(), p);
        front.lemma_filter_push(s.last(), q);
        assert(front.push(s.last()) =~= s);
    }
}

/// A filter that no item passes leaves nothing.
pub proof fn lemma_filter_none<A>(s: Seq<A>, keep: spec_fn(A) -> bool)
    requires
        forall|i: int| 0 <= i < s.len() ==> !keep(#[trigger] s[i]),
    ensures
        s.filter(keep) == Seq::<A>::empty(),
    decreases s.len(),
{
    if s.len() == 0 {
        s.lemma_filter_len(keep);
        assert(s.filter(keep) =~= Seq::<A>::empty());
    } else {
        let front = s.drop_last();
        lemma_filter_none(front, keep);
        front.lemma_filter_push(s.last(), keep);
        assert(front.push(s.last()) =~= s);
    }
}

/// Filtering twice is filtering once by both conditions.
pub proof fn lemma_filter_twice<A>(
    s: Seq<A>,
    p: spec_fn(A) -> bool,
    q: spec_fn(A) -> bool,
    both: spec_fn(A) -> bool,
)
    requires
        forall|a: A| #[trigger] both(a) == (p(a) && q(a)),
    ensures
        s.filter(p).filter(q) == s.filter(both),
    decreases s.len(),
{
    if s.len() == 0 {
        s.lemma_filter_len(p);
        s.lemma_filter_len(both);
        s.filter(p).lemma_filter_len(q);
        assert(s.filter(p).filter(q) =~= s.filter(both));
    } else {
        let front = s.drop_last();
        let last = s.last();
        lemma_filter_twice(front, p, q, both);
        front.lemma_filter_push(last, p);
        front.lemma_filter_push(last, both);
        front.filter(p).lemma_filter_push(last, q);
        assert(front.push(last) =~= s);
    }
}

/// A list that is empty can be left out of what is flattened.
pub proof fn lemma_flatten_skip<A>(
    n: nat,
    f: spec_fn(int) -> Seq<A>,
    g: spec_fn(int) -> Seq<A>,
    at: int,
)
    requires
        0 <= at < n,
        f(at) == Seq::<A>::empty(),
        forall|k: int| 0 <= k < at ==> #[trigger] g(k) == f(k),
        forall|k: int| at <= k < n - 1 ==> #[trigger] g(k) == f(k + 1),
    ensures
        Seq::new((n - 1) as nat, g).flatten() == Seq::new(n, f).flatten(),
    decreases n,
{
    let m = (n - 1) as nat;
    lemma_flatten_step(m, f);
    if at == m {
        lemma_flatten_agree(m, g, f);
        assert(Seq::new(m, f).flatten() + Seq::<A>::empty() =~= Seq::new(m, f).flatten());
    } else {
        lemma_flatten_skip(m, f, g, at);
        lemma_flatten_step((m - 1) as nat, g);
        assert(g(m - 1) == f(m as int));
    }
}

/// Changing every item of what was flattened is flattening what was
/// changed.
pub proof fn lemma_flatten_map<A, B>(
    n: nat,
    f: spec_fn(int) -> Seq<A>,
    g: spec_fn(int) -> Seq<B>,
    change: spec_fn(A) -> B,
)
    requires
        forall|k: int| 0 <= k < n ==> #[trigger] g(k) == f(k).map_values(change),
    ensures
        Seq::new(n, g).flatten() == Seq::new(n, f).flatten().map_values(change),
    decreases n,
{
    if n == 0 {
        lemma_flatten_step(0, f);
        lemma_flatten_step(0, g);
        assert(Seq::<A>::empty().map_values(change) =~= Seq::<B>::empty());
    } else {
        let m = (n - 1) as nat;
        lemma_flatten_map(m, f, g, change);
        lemma_flatten_step(m, f);
        lemma_flatten_step(m, g);
        let front = Seq::new(m, f).flatten();
        assert((front + f(m as int)).map_values(change) =~= front.map_values(change) + f(
            m as int,
        ).map_values(change));
    }
}

} // verus!
