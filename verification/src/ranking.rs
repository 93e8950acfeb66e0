//! Ranking a list by an order that may leave ties, keeping tied items in the
//! order they arrived.

use vstd::prelude::*;

verus! {

/// A way to rank items of `T`: a strict order in which items may tie, and ties
/// form classes.
pub trait Rank<T>: Sized {
    /// Whether `a` ranks strictly before `b`.
    spec fn before(self, a: T, b: T) -> bool;

    /// No two items each rank before the other.
    proof fn asymmetric(self, a: T, b: T)
        requires
            self.before(a, b),
        ensures
            !self.before(b, a),
    ;

    /// An item between two others keeps them apart: what does not come before
    /// `b`, which does not come before `c`, does not come before `c` either.
    proof fn negatively_transitive(self, a: T, b: T, c: T)
        requires
            !self.before(a, b),
            !self.before(b, c),
        ensures
            !self.before(a, c),
    ;

    /// Decides `before`.
    fn is_before(&self, a: &T, b: &T) -> (r: bool)
        ensures
            r == self.before(*a, *b),
    ;
}

/// `a` and `b` rank alike.
pub open spec fn ties<T, R: Rank<T>>(rank: R, a: T, b: T) -> bool {
    !rank.before(a, b) && !rank.before(b, a)
}

/// No later item of `s` ranks before an earlier one.
pub open spec fn in_rank_order<T, R: Rank<T>>(rank: R, s: Seq<T>) -> bool {
    forall|i: int, j: int| 0 <= i < j < s.len() ==> !rank.before(#[trigger] s[j], #[trigger] s[i])
}

/// `r` is `s` put in rank order: the same items, and items that tie stand in
/// the order they stood in.
pub open spec fn ranked_from<T, R: Rank<T>>(rank: R, s: Seq<T>, r: Seq<T>) -> bool {
    &&& in_rank_order(rank, r)
    &&& r.to_multiset() == s.to_multiset()
    &&& forall|k: T| #[trigger] tied_with(rank, r, k) == tied_with(rank, s, k)
}

/// The items of `s` that tie with `k`, in their order.
pub open spec fn tied_with<T, R: Rank<T>>(rank: R, s: Seq<T>, k: T) -> Seq<T> {
    s.filter(|x: T| ties(rank, x, k))
}

proof fn lemma_insert_keeps_classes<T, R: Rank<T>>(rank: R, out: Seq<T>, x: T, p: int, k: T)
    requires
        0 <= p <= out.len(),
        forall|i: int| 0 <= i < p ==> rank.before(#[trigger] out[i], x),
    ensures
        tied_with(rank, out.insert(p, x), k) == tied_with(rank, seq![x] + out, k),
{
    let f = |y: T| ties(rank, y, k);
    let a = out.take(p);
    let b = out.skip(p);
    assert(out.insert(p, x) =~= a + seq![x] + b);
    assert(out =~= a + b);
    Seq::filter_distributes_over_add(a + seq![x], b, f);
    Seq::filter_distributes_over_add(a, seq![x], f);
    Seq::filter_distributes_over_add(seq![x], out, f);
    Seq::filter_distributes_over_add(a, b, f);
    reveal_with_fuel(Seq::filter, 2);
    assert(seq![x].drop_last() =~= Seq::<T>::empty());
    if f(x) {
        assert forall|i: int| 0 <= i < a.len() implies !f(#[trigger] a[i]) by {
            assert(rank.before(out[i], x));
            if ties(rank, a[i], k) {
                rank.negatively_transitive(a[i], k, x);
            }
        }
        assert(a.all(|y: T| !f(y)));
        a.lemma_all_neg_filter_empty(f);
        assert(a.filter(f) =~= Seq::<T>::empty());
        assert(a.filter(f) + seq![x].filter(f) + b.filter(f) =~= seq![x].filter(f) + (a.filter(f)
            + b.filter(f)));
    } else {
        assert(seq![x].filter(f) =~= Seq::<T>::empty());
        assert(a.filter(f) + seq![x].filter(f) + b.filter(f) =~= seq![x].filter(f) + (a.filter(f)
            + b.filter(f)));
    }
}

/// Puts `items` in rank order, leaving tied items in the order they came.
pub fn rank_items<T, R: Rank<T>>(rank: &R, items: Vec<T>) -> (r: Vec<T>)
    ensures
        ranked_from(*rank, items@, r@),
        r@.len() == items@.len(),
{
    broadcast use vstd::seq_lib::group_to_multiset_ensures;

    let ghost all = items@;
    let mut left = items;
    let mut out: Vec<T> = Vec::new();
    assert(all.skip(all.len() as int) =~= Seq::<T>::empty());
    assert(out@ =~= Seq::<T>::empty());
    while left.len() > 0
        invariant
            left@ == all.take(left@.len() as int),
            left@.len() <= all.len(),
            ranked_from(*rank, all.skip(left@.len() as int), out@),
            out@.len() + left@.len() == all.len(),
        decreases left.len(),
    {
        let ghost rest = all.skip(left@.len() as int);
        let x = left.pop().unwrap();
        let mut p: usize = 0;
        while p < out.len() && rank.is_before(&out[p], &x)
            invariant
                p <= out.len(),
                forall|i: int| 0 <= i < p ==> rank.before(#[trigger] out@[i], x),
            decreases out.len() - p,
        {
            p = p + 1;
        }
        let ghost before = out@;
        out.insert(p, x);
        proof {
            assert(all.skip(left@.len() as int) =~= seq![x] + rest);
            assert(left@ =~= all.take(left@.len() as int));
            assert forall|k: T| #[trigger]
                tied_with(*rank, out@, k) == tied_with(*rank, seq![x] + rest, k) by {
                lemma_insert_keeps_classes(*rank, before, x, p as int, k);
                let f = |y: T| ties(*rank, y, k);
                Seq::filter_distributes_over_add(seq![x], rest, f);
                Seq::filter_distributes_over_add(seq![x], before, f);
                assert(tied_with(*rank, before, k) == tied_with(*rank, rest, k));
            }
            assert forall|i: int, j: int| 0 <= i < j < out@.len() implies !rank.before(
                #[trigger] out@[j],
                #[trigger] out@[i],
            ) by {
                if j < p {
                    assert(out@[i] == before[i] && out@[j] == before[j]);
                } else if j == p {
                    rank.asymmetric(before[i], x);
                } else if i < p {
                    assert(out@[j] == before[j - 1] && out@[i] == before[i]);
                } else if i == p {
                    assert(!rank.before(before[p as int], x));
                    if j - 1 > p {
                        assert(!rank.before(before[j - 1], before[p as int]));
                        rank.negatively_transitive(before[j - 1], before[p as int], x);
                    }
                    assert(out@[j] == before[j - 1]);
                } else {
                    assert(out@[i] == before[i - 1] && out@[j] == before[j - 1]);
                }
            }
            vstd::seq_lib::to_multiset_insert(before, p as int, x);
            assert(out@.to_multiset() == before.to_multiset().insert(x));
            assert((seq![x] + rest).to_multiset() =~= rest.to_multiset().insert(x)) by {
                assert(seq![x] + rest =~= rest.insert(0, x));
                vstd::seq_lib::to_multiset_insert(rest, 0, x);
            }
        }
    }
    assert(all.skip(0) =~= all);
    out
}

/// `s` and `t` hold the same items, class by class in the same order.
pub open spec fn same_classes<T, R: Rank<T>>(rank: R, s: Seq<T>, t: Seq<T>) -> bool {
    &&& s.to_multiset() == t.to_multiset()
    &&& forall|k: T| #[trigger] tied_with(rank, s, k) == tied_with(rank, t, k)
}

proof fn lemma_tied_with_first<T, R: Rank<T>>(rank: R, s: Seq<T>, k: T)
    requires
        s.len() > 0,
    ensures
        tied_with(rank, s, k) == (if ties(rank, s[0], k) {
            seq![s[0]]
        } else {
            Seq::empty()
        }) + tied_with(rank, s.drop_first(), k),
{
    let f = |x: T| ties(rank, x, k);
    assert(s =~= seq![s[0]] + s.drop_first());
    Seq::filter_distributes_over_add(seq![s[0]], s.drop_first(), f);
    reveal_with_fuel(Seq::filter, 2);
    assert(seq![s[0]].drop_last() =~= Seq::<T>::empty());
    assert(seq![s[0]].filter(f) =~= (if ties(rank, s[0], k) {
        seq![s[0]]
    } else {
        Seq::empty()
    }));
}

proof fn lemma_one_rank_order<T, R: Rank<T>>(rank: R, s: Seq<T>, t: Seq<T>)
    requires
        in_rank_order(rank, s),
        in_rank_order(rank, t),
        same_classes(rank, s, t),
    ensures
        s == t,
    decreases s.len(),
{
    broadcast use vstd::seq_lib::group_to_multiset_ensures;

    assert(s.len() == s.to_multiset().len());
    assert(t.len() == t.to_multiset().len());
    if s.len() > 0 {
        let x = s[0];
        let y = t[0];
        assert(t.contains(x)) by {
            assert(s.to_multiset().count(x) > 0);
        }
        assert(s.contains(y)) by {
            assert(t.to_multiset().count(y) > 0);
        }
        let a = choose|a: int| 0 <= a < t.len() && t[a] == x;
        let b = choose|b: int| 0 <= b < s.len() && s[b] == y;
        if rank.before(x, x) {
            rank.asymmetric(x, x);
        }
        assert(!rank.before(x, y)) by {
            if a == 0 {
                assert(x == y);
            }
        }
        assert(!rank.before(y, x)) by {
            if b == 0 {
                assert(x == y);
            }
        }
        lemma_tied_with_first(rank, s, x);
        lemma_tied_with_first(rank, t, x);
        assert(tied_with(rank, s, x)[0] == x);
        assert(tied_with(rank, t, x)[0] == y);
        assert(x == y);
        let s1 = s.drop_first();
        let t1 = t.drop_first();
        assert(s1 =~= s.remove(0));
        assert(t1 =~= t.remove(0));
        assert forall|k: T| #[trigger] tied_with(rank, s1, k) == tied_with(rank, t1, k) by {
            lemma_tied_with_first(rank, s, k);
            lemma_tied_with_first(rank, t, k);
            assert(tied_with(rank, s, k) == tied_with(rank, t, k));
            let n: int = if ties(rank, x, k) {
                1
            } else {
                0
            };
            assert(tied_with(rank, s1, k) =~= tied_with(rank, s, k).skip(n));
            assert(tied_with(rank, t1, k) =~= tied_with(rank, t, k).skip(n));
        }
        lemma_one_rank_order(rank, s1, t1);
        assert(s =~= seq![x] + s1);
        assert(t =~= seq![y] + t1);
    } else {
        assert(s =~= t);
    }
}

/// There is one way to put items in rank order.
pub proof fn law_ranking_is_unique<T, R: Rank<T>>(rank: R, items: Seq<T>, a: Seq<T>, b: Seq<T>)
    requires
        ranked_from(rank, items, a),
        ranked_from(rank, items, b),
    ensures
        a == b,
{
    assert forall|k: T| #[trigger] tied_with(rank, a, k) == tied_with(rank, b, k) by {
        assert(tied_with(rank, a, k) == tied_with(rank, items, k));
        assert(tied_with(rank, b, k) == tied_with(rank, items, k));
    }
    lemma_one_rank_order(rank, a, b);
}

/// Ranking what is already ranked changes nothing.
pub proof fn law_ranking_again_changes_nothing<T, R: Rank<T>>(
    rank: R,
    items: Seq<T>,
    once: Seq<T>,
    twice: Seq<T>,
)
    requires
        ranked_from(rank, items, once),
        ranked_from(rank, once, twice),
    ensures
        twice == once,
{
    law_ranking_is_unique(rank, once, once, twice);
}

/// Where only equal items tie, the rank order does not depend on the order that the
/// items came in.
pub proof fn law_ranking_forgets_the_order<T, R: Rank<T>>(
    rank: R,
    s: Seq<T>,
    t: Seq<T>,
    a: Seq<T>,
    b: Seq<T>,
)
    requires
        s.to_multiset() == t.to_multiset(),
        forall|i: int, j: int|
            0 <= i < s.len() && 0 <= j < s.len() && ties(rank, #[trigger] s[i], #[trigger] s[j])
                ==> s[i] == s[j],
        ranked_from(rank, s, a),
        ranked_from(rank, t, b),
    ensures
        a == b,
{
    broadcast use vstd::seq_lib::group_to_multiset_ensures;

    assert forall|i: int, j: int|
        0 <= i < a.len() && 0 <= j < a.len() && ties(
            rank,
            #[trigger] a[i],
            #[trigger] a[j],
        ) implies a[i] == a[j] by {
        assert(a.to_multiset().count(a[i]) > 0);
        assert(a.to_multiset().count(a[j]) > 0);
        let x = choose|x: int| 0 <= x < s.len() && s[x] == a[i];
        let y = choose|y: int| 0 <= y < s.len() && s[y] == a[j];
        assert(ties(rank, s[x], s[y]));
    }
    lemma_rank_order_without_ties(rank, a, b);
}

proof fn lemma_rank_order_without_ties<T, R: Rank<T>>(rank: R, a: Seq<T>, b: Seq<T>)
    requires
        a.to_multiset() == b.to_multiset(),
        in_rank_order(rank, a),
        in_rank_order(rank, b),
        forall|i: int, j: int|
            0 <= i < a.len() && 0 <= j < a.len() && ties(rank, #[trigger] a[i], #[trigger] a[j])
                ==> a[i] == a[j],
    ensures
        a == b,
    decreases a.len(),
{
    broadcast use {vstd::seq_lib::group_to_multiset_ensures, vstd::multiset::group_multiset_axioms};

    assert(a.len() == a.to_multiset().len());
    assert(b.len() == b.to_multiset().len());
    if a.len() > 0 {
        assert(a.to_multiset().count(a[0]) > 0);
        assert(b.to_multiset().count(b[0]) > 0);
        let i = choose|i: int| 0 <= i < a.len() && a[i] == b[0];
        let j = choose|j: int| 0 <= j < b.len() && b[j] == a[0];
        if i > 0 && j > 0 {
            assert(!rank.before(a[i], a[0]));
            assert(!rank.before(b[j], b[0]));
            assert(ties(rank, a[i], a[0]));
        }
        assert(a[0] == b[0]);
        let x = a.drop_first();
        let y = b.drop_first();
        assert(x =~= a.remove(0));
        assert(y =~= b.remove(0));
        assert forall|i: int, j: int| 0 <= i < j < x.len() implies !rank.before(
            #[trigger] x[j],
            #[trigger] x[i],
        ) by {
            assert(!rank.before(a[j + 1], a[i + 1]));
        }
        assert forall|i: int, j: int| 0 <= i < j < y.len() implies !rank.before(
            #[trigger] y[j],
            #[trigger] y[i],
        ) by {
            assert(!rank.before(b[j + 1], b[i + 1]));
        }
        assert forall|i: int, j: int|
            0 <= i < x.len() && 0 <= j < x.len() && ties(
                rank,
                #[trigger] x[i],
                #[trigger] x[j],
            ) implies x[i] == x[j] by {
            assert(ties(rank, a[i + 1], a[j + 1]));
        }
        lemma_rank_order_without_ties(rank, x, y);
        assert(a =~= seq![a[0]] + x);
        assert(b =~= seq![b[0]] + y);
    } else {
        assert(a =~= b);
    }
}

/// Ranking gives the same items in rank order, and leaves those that tie in the order
/// they came in.
pub proof fn law_ranking_sorts_and_keeps_ties<T, R: Rank<T>>(
    rank: R,
    items: Vec<T>,
    k: T,
    r: Vec<T>,
)
    requires
        call_ensures(rank_items::<T, R>, (&rank, items), r),
    ensures
        r@.to_multiset() == items@.to_multiset(),
        forall|i: int, j: int|
            0 <= i < j < r@.len() ==> !rank.before(#[trigger] r@[j], #[trigger] r@[i]),
        r@.filter(|x: T| !rank.before(x, k) && !rank.before(k, x)) == items@.filter(
            |x: T| !rank.before(x, k) && !rank.before(k, x),
        ),
{
    assert(tied_with(rank, r@, k) == tied_with(rank, items@, k));
    assert((|x: T| ties(rank, x, k)) =~= (|x: T| !rank.before(x, k) && !rank.before(k, x)));
}

} // verus!
