//! A stable sort over items that carry a total preorder on their views.

use vstd::prelude::*;

verus! {

/// Items with a sort key: `ranks_before(a, b)` holds when `a`'s key is at
/// most `b`'s, a total preorder on the items' views.
pub trait Ranked: DeepView + Sized {
    spec fn ranks_before(a: <Self as DeepView>::V, b: <Self as DeepView>::V) -> bool;

    proof fn lemma_ranks_total(a: <Self as DeepView>::V, b: <Self as DeepView>::V)
        ensures
            Self::ranks_before(a, b) || Self::ranks_before(b, a),
    ;

    proof fn lemma_ranks_transitive(
        a: <Self as DeepView>::V,
        b: <Self as DeepView>::V,
        c: <Self as DeepView>::V,
    )
        requires
            Self::ranks_before(a, b),
            Self::ranks_before(b, c),
        ensures
            Self::ranks_before(a, c),
    ;

    fn ranks_before_exec(&self, other: &Self) -> (r: bool)
        ensures
            r == Self::ranks_before(self.deep_view(), other.deep_view()),
    ;
}

/// `a` and `b` have equal keys.
pub open spec fn tied<T: Ranked>(a: <T as DeepView>::V, b: <T as DeepView>::V) -> bool {
    T::ranks_before(a, b) && T::ranks_before(b, a)
}

/// Each item ranks before every later one.
pub open spec fn sorted_by_rank<T: Ranked>(s: Seq<<T as DeepView>::V>) -> bool {
    forall|i: int, j: int| 0 <= i < j < s.len() ==> T::ranks_before(#[trigger] s[i], #[trigger] s[j])
}

/// The items of `s` whose key equals that of `x`, in their order in `s`.
pub open spec fn ties_of<T: Ranked>(s: Seq<<T as DeepView>::V>, x: <T as DeepView>::V) -> Seq<
    <T as DeepView>::V,
> {
    s.filter(|y: <T as DeepView>::V| tied::<T>(x, y))
}

/// `out` is the stable sort of `inp`: it is as long as `inp`, sorted, and
/// for every key it holds exactly the items of `inp` with that key, in
/// their order in `inp`.
pub open spec fn is_stable_sort<T: Ranked>(
    out: Seq<<T as DeepView>::V>,
    inp: Seq<<T as DeepView>::V>,
) -> bool {
    &&& out.len() == inp.len()
    &&& sorted_by_rank::<T>(out)
    &&& forall|x: <T as DeepView>::V| #[trigger] ties_of::<T>(out, x) == ties_of::<T>(inp, x)
}

proof fn lemma_tied_symmetric_transitive<T: Ranked>(
    a: <T as DeepView>::V,
    b: <T as DeepView>::V,
    c: <T as DeepView>::V,
)
    requires
        tied::<T>(a, b),
        tied::<T>(a, c),
    ensures
        tied::<T>(b, c),
{
    T::lemma_ranks_transitive(b, a, c);
    T::lemma_ranks_transitive(c, a, b);
}

/// Inserting `v` at the first position whose item `v` ranks before keeps a
/// stable sort, with `v` taken as the earliest of its ties.
proof fn lemma_insert_keeps_stable<T: Ranked>(
    o: Seq<<T as DeepView>::V>,
    rest: Seq<<T as DeepView>::V>,
    v: <T as DeepView>::V,
    k: int,
)
    requires
        is_stable_sort::<T>(o, rest),
        0 <= k <= o.len(),
        forall|j: int| 0 <= j < k ==> !T::ranks_before(v, #[trigger] o[j]),
        k < o.len() ==> T::ranks_before(v, o[k]),
    ensures
        is_stable_sort::<T>(o.insert(k, v), seq![v] + rest),
{
    let o2 = o.insert(k, v);
    assert forall|j: int| k <= j < o.len() implies T::ranks_before(v, #[trigger] o[j]) by {
        if j > k {
            T::lemma_ranks_transitive(v, o[k], o[j]);
        }
    }
    assert forall|j: int| 0 <= j < k implies T::ranks_before(#[trigger] o[j], v) && !T::ranks_before(
        v,
        o[j],
    ) by {
        T::lemma_ranks_total(v, o[j]);
    }
    assert forall|i: int, j: int| 0 <= i < j < o2.len() implies T::ranks_before(
        #[trigger] o2[i],
        #[trigger] o2[j],
    ) by {
        if j < k {
            assert(o2[i] == o[i] && o2[j] == o[j]);
        } else if j == k {
            assert(o2[i] == o[i]);
        } else if i < k {
            assert(o2[i] == o[i] && o2[j] == o[j - 1]);
            T::lemma_ranks_transitive(o[i], v, o[j - 1]);
        } else if i == k {
            assert(o2[j] == o[j - 1]);
        } else {
            assert(o2[i] == o[i - 1] && o2[j] == o[j - 1]);
        }
    }
    assert forall|x: <T as DeepView>::V| #[trigger] ties_of::<T>(o2, x) == ties_of::<T>(
        seq![v] + rest,
        x,
    ) by {
        let p = |y: <T as DeepView>::V| tied::<T>(x, y);
        let pre = o.take(k);
        let post = o.skip(k);
        assert(o2 =~= pre + (seq![v] + post));
        assert(o =~= pre + post);
        Seq::filter_distributes_over_add(pre, seq![v] + post, p);
        Seq::filter_distributes_over_add(pre, post, p);
        post.lemma_filter_prepend(v, p);
        rest.lemma_filter_prepend(v, p);
        assert(ties_of::<T>(o, x) == ties_of::<T>(rest, x));
        if tied::<T>(x, v) {
            assert forall|j: int| 0 <= j < pre.len() implies !p(#[trigger] pre[j]) by {
                assert(pre[j] == o[j]);
                if p(pre[j]) {
                    lemma_tied_symmetric_transitive::<T>(x, v, o[j]);
                }
            }
            assert(pre.all(|y: <T as DeepView>::V| !p(y)));
            pre.lemma_all_neg_filter_empty(p);
            assert(pre.filter(p) =~= Seq::<<T as DeepView>::V>::empty());
            assert(ties_of::<T>(o2, x) =~= seq![v] + post.filter(p));
            assert(ties_of::<T>(seq![v] + rest, x) =~= seq![v] + rest.filter(p));
            assert(ties_of::<T>(o, x) =~= post.filter(p));
        } else {
            assert(ties_of::<T>(o2, x) =~= pre.filter(p) + post.filter(p));
            assert(ties_of::<T>(seq![v] + rest, x) =~= rest.filter(p));
        }
    }
}

/// Two sorted sequences of the same length that hold the same items of
/// every key, in the same order, are equal.
proof fn lemma_sorted_same_ties_equal<T: Ranked>(a: Seq<<T as DeepView>::V>, b: Seq<<T as DeepView>::V>)
    requires
        a.len() == b.len(),
        sorted_by_rank::<T>(a),
        sorted_by_rank::<T>(b),
        forall|x: <T as DeepView>::V| #[trigger] ties_of::<T>(a, x) == ties_of::<T>(b, x),
    ensures
        a == b,
    decreases a.len(),
{
    if a.len() == 0 {
        assert(a =~= b);
    } else {
        let a0 = a[0];
        let b0 = b[0];
        T::lemma_ranks_total(a0, a0);
        T::lemma_ranks_total(b0, b0);
        let pa = |y: <T as DeepView>::V| tied::<T>(a0, y);
        let pb = |y: <T as DeepView>::V| tied::<T>(b0, y);
        // some item of `a` is tied with b[0], so a[0] ranks before b[0]
        b.lemma_filter_contains(pb, 0);
        assert(ties_of::<T>(a, b0) == ties_of::<T>(b, b0));
        a.lemma_filter_contains_rev(pb, b0);
        let j = choose|j: int| 0 <= j < a.len() && a[j] == b0;
        if j > 0 {
            assert(T::ranks_before(a[0], a[j]));
        }
        // and symmetrically
        a.lemma_filter_contains(pa, 0);
        assert(ties_of::<T>(b, a0) == ties_of::<T>(a, a0));
        b.lemma_filter_contains_rev(pa, a0);
        let k = choose|k: int| 0 <= k < b.len() && b[k] == a0;
        if k > 0 {
            assert(T::ranks_before(b[0], b[k]));
        }
        assert(tied::<T>(a0, b0));
        let ar = a.drop_first();
        let br = b.drop_first();
        assert(a =~= seq![a0] + ar);
        assert(b =~= seq![b0] + br);
        ar.lemma_filter_prepend(a0, pa);
        br.lemma_filter_prepend(b0, pa);
        assert(ties_of::<T>(a, a0)[0] == a0);
        assert(ties_of::<T>(b, a0)[0] == b0);
        assert(a0 == b0);
        assert forall|x: <T as DeepView>::V| #[trigger] ties_of::<T>(ar, x) == ties_of::<T>(br, x) by {
            let px = |y: <T as DeepView>::V| tied::<T>(x, y);
            ar.lemma_filter_prepend(a0, px);
            br.lemma_filter_prepend(a0, px);
            assert(ties_of::<T>(a, x) == ties_of::<T>(b, x));
            if tied::<T>(x, a0) {
                assert(ties_of::<T>(ar, x) =~= ties_of::<T>(a, x).drop_first());
                assert(ties_of::<T>(br, x) =~= ties_of::<T>(b, x).drop_first());
            } else {
                assert(ties_of::<T>(ar, x) =~= ties_of::<T>(a, x));
                assert(ties_of::<T>(br, x) =~= ties_of::<T>(b, x));
            }
        }
        assert forall|i: int, j: int| 0 <= i < j < ar.len() implies T::ranks_before(
            #[trigger] ar[i],
            #[trigger] ar[j],
        ) by {
            assert(ar[i] == a[i + 1] && ar[j] == a[j + 1]);
        }
        assert forall|i: int, j: int| 0 <= i < j < br.len() implies T::ranks_before(
            #[trigger] br[i],
            #[trigger] br[j],
        ) by {
            assert(br[i] == b[i + 1] && br[j] == b[j + 1]);
        }
        lemma_sorted_same_ties_equal::<T>(ar, br);
        assert(a =~= b);
    }
}

/// A sequence has only one stable sort.
pub proof fn lemma_stable_sort_unique<T: Ranked>(
    a: Seq<<T as DeepView>::V>,
    b: Seq<<T as DeepView>::V>,
    inp: Seq<<T as DeepView>::V>,
)
    requires
        is_stable_sort::<T>(a, inp),
        is_stable_sort::<T>(b, inp),
    ensures
        a == b,
{
    assert forall|x: <T as DeepView>::V| #[trigger] ties_of::<T>(a, x) == ties_of::<T>(b, x) by {
        assert(ties_of::<T>(a, x) == ties_of::<T>(inp, x));
        assert(ties_of::<T>(b, x) == ties_of::<T>(inp, x));
    }
    lemma_sorted_same_ties_equal::<T>(a, b);
}

/// A stable sort holds exactly the items of its input.
pub proof fn lemma_stable_sort_same_items<T: Ranked>(
    out: Seq<<T as DeepView>::V>,
    inp: Seq<<T as DeepView>::V>,
)
    requires
        is_stable_sort::<T>(out, inp),
    ensures
        forall|x: <T as DeepView>::V| out.contains(x) <==> inp.contains(x),
{
    assert forall|x: <T as DeepView>::V| out.contains(x) <==> inp.contains(x) by {
        T::lemma_ranks_total(x, x);
        let p = |y: <T as DeepView>::V| tied::<T>(x, y);
        assert(ties_of::<T>(out, x) == ties_of::<T>(inp, x));
        if out.contains(x) {
            let i = choose|i: int| 0 <= i < out.len() && out[i] == x;
            out.lemma_filter_contains(p, i);
            inp.lemma_filter_contains_rev(p, x);
        }
        if inp.contains(x) {
            let i = choose|i: int| 0 <= i < inp.len() && inp[i] == x;
            inp.lemma_filter_contains(p, i);
            out.lemma_filter_contains_rev(p, x);
        }
    }
}

/// Sorts `items` by rank, keeping items of equal rank in their given order,
/// as `sort_by` does.
pub fn stable_sort<T: Ranked>(items: Vec<T>) -> (out: Vec<T>)
    ensures
        is_stable_sort::<T>(out.deep_view(), items.deep_view()),
{
    let ghost all = items.deep_view();
    let mut rest = items;
    let mut out: Vec<T> = Vec::new();
    assert(all.skip(all.len() as int) =~= Seq::<<T as DeepView>::V>::empty());
    assert(out.deep_view() =~= Seq::<<T as DeepView>::V>::empty());
    assert(rest.deep_view() =~= all.take(all.len() as int));
    while rest.len() > 0
        invariant
            rest.len() <= all.len(),
            rest.deep_view() == all.take(rest.len() as int),
            is_stable_sort::<T>(out.deep_view(), all.skip(rest.len() as int)),
        decreases rest.len(),
    {
        let ghost n = rest.len() as int;
        let ghost before = rest.deep_view();
        let ghost old_rest = rest@;
        let x = rest.pop().unwrap();
        assert(before[n - 1] == old_rest[n - 1].deep_view());
        assert(rest.deep_view() =~= all.take(n - 1));
        assert(x.deep_view() == all[n - 1]);
        let ghost o = out.deep_view();
        let mut k: usize = 0;
        while k < out.len() && !x.ranks_before_exec(&out[k])
            invariant
                k <= out.len(),
                o == out.deep_view(),
                forall|j: int| 0 <= j < k ==> !T::ranks_before(x.deep_view(), #[trigger] o[j]),
            decreases out.len() - k,
        {
            k = k + 1;
        }
        proof {
            lemma_insert_keeps_stable::<T>(o, all.skip(n), x.deep_view(), k as int);
            assert(all.skip(n - 1) =~= seq![all[n - 1]] + all.skip(n));
        }
        out.insert(k, x);
        assert(out.deep_view() =~= o.insert(k as int, x.deep_view()));
    }
    assert(all.skip(0) =~= all);
    out
}

} // verus!
