//! Stable insertion order by a "comes before" relation, as a specification,
//! with the fact the executable sorts use: inserting before the first
//! element that the new one comes before.
use vstd::prelude::*;
use vstd::multiset::Multiset;

verus! {

/// `x` placed before the first element it comes before (after all others).
pub open spec fn insert_by<A>(s: Seq<A>, x: A, before: spec_fn(A, A) -> bool) -> Seq<A>
    decreases s.len(),
{
    if s.len() == 0 {
        seq![x]
    } else if before(x, s[0]) {
        seq![x] + s
    } else {
        seq![s[0]] + insert_by(s.drop_first(), x, before)
    }
}

/// The elements in the order given by `before`; elements neither of which
/// comes before the other keep their order.
pub open spec fn sort_by<A>(s: Seq<A>, before: spec_fn(A, A) -> bool) -> Seq<A>
    decreases s.len(),
{
    if s.len() == 0 { s } else { insert_by(sort_by(s.drop_last(), before), s.last(), before) }
}

/// Inserting at the first position whose element `x` comes before.
pub proof fn lemma_insert_by_at<A>(s: Seq<A>, x: A, before: spec_fn(A, A) -> bool, i: int)
    requires
        0 <= i <= s.len(),
        forall|j: int| 0 <= j < i ==> !before(x, #[trigger] s[j]),
        i < s.len() ==> before(x, s[i]),
    ensures
        insert_by(s, x, before) == s.take(i) + seq![x] + s.skip(i),
    decreases s.len(),
{
    if s.len() == 0 {
        assert(s.take(0) + seq![x] + s.skip(0) =~= seq![x]);
    } else if i == 0 {
        assert(s.take(0) + seq![x] + s.skip(0) =~= seq![x] + s);
    } else {
        assert forall|j: int| 0 <= j < i - 1 implies !before(x, #[trigger] s.drop_first()[j]) by {
            assert(s.drop_first()[j] == s[j + 1]);
        }
        lemma_insert_by_at(s.drop_first(), x, before, i - 1);
        assert(seq![s[0]] + (s.drop_first().take(i - 1) + seq![x] + s.drop_first().skip(i - 1))
            =~= s.take(i) + seq![x] + s.skip(i));
    }
}

/// Each element comes before every later one.
pub open spec fn ordered_by<A>(s: Seq<A>, before: spec_fn(A, A) -> bool) -> bool {
    forall|i: int, j: int| 0 <= i < j < s.len() ==> #[trigger] before(s[i], s[j])
}

/// On the elements of `s`, `before` is irreflexive and transitive, and
/// relates any two elements that differ.
pub open spec fn strict_on<A>(s: Seq<A>, before: spec_fn(A, A) -> bool) -> bool {
    &&& forall|a: A| #[trigger] s.contains(a) ==> !before(a, a)
    &&& forall|a: A, b: A, c: A|
        s.contains(a) && s.contains(b) && s.contains(c) && #[trigger] before(a, b) && #[trigger] before(b, c)
            ==> before(a, c)
    &&& forall|a: A, b: A| #[trigger] s.contains(a) && #[trigger] s.contains(b) && a != b ==> before(a, b) || before(b, a)
}

/// Inserting keeps the elements, one more of `x`.
pub proof fn lemma_insert_by_multiset<A>(s: Seq<A>, x: A, before: spec_fn(A, A) -> bool)
    ensures
        insert_by(s, x, before).to_multiset() == s.to_multiset().insert(x),
    decreases s.len(),
{
    broadcast use vstd::seq_lib::group_to_multiset_ensures;
    broadcast use vstd::multiset::group_multiset_axioms;
    if s.len() == 0 {
        assert(seq![x] =~= s.push(x));
    } else if before(x, s[0]) {
        vstd::seq_lib::lemma_multiset_commutative(seq![x], s);
        assert(seq![x] =~= Seq::<A>::empty().push(x));
        assert(seq![x].to_multiset() =~= Multiset::<A>::empty().insert(x));
        assert((seq![x] + s).to_multiset() =~= s.to_multiset().insert(x));
    } else {
        lemma_insert_by_multiset(s.drop_first(), x, before);
        let rest = insert_by(s.drop_first(), x, before);
        vstd::seq_lib::lemma_multiset_commutative(seq![s[0]], rest);
        vstd::seq_lib::lemma_multiset_commutative(seq![s[0]], s.drop_first());
        assert(seq![s[0]] + s.drop_first() =~= s);
        assert(seq![s[0]] =~= Seq::<A>::empty().push(s[0]));
        assert((seq![s[0]] + rest).to_multiset() =~= s.to_multiset().insert(x));
    }
}

/// Sorting keeps the elements.
pub proof fn lemma_sort_by_multiset<A>(s: Seq<A>, before: spec_fn(A, A) -> bool)
    ensures
        sort_by(s, before).to_multiset() == s.to_multiset(),
    decreases s.len(),
{
    broadcast use vstd::seq_lib::group_to_multiset_ensures;
    if s.len() > 0 {
        lemma_sort_by_multiset(s.drop_last(), before);
        lemma_insert_by_multiset(sort_by(s.drop_last(), before), s.last(), before);
        assert(s.drop_last().push(s.last()) =~= s);
    }
}

proof fn lemma_same_multiset_contains<A>(a: Seq<A>, b: Seq<A>, x: A)
    requires
        a.to_multiset() == b.to_multiset(),
    ensures
        a.contains(x) == b.contains(x),
{
    a.to_multiset_ensures();
    b.to_multiset_ensures();
    assert(a.to_multiset().count(x) == b.to_multiset().count(x));
    assert(a.contains(x) <==> a.to_multiset().count(x) > 0);
    assert(b.contains(x) <==> b.to_multiset().count(x) > 0);
}

/// Inserting an element not yet there into an ordered sequence keeps it
/// ordered.
pub proof fn lemma_insert_by_ordered<A>(s: Seq<A>, x: A, before: spec_fn(A, A) -> bool, all: Seq<A>)
    requires
        ordered_by(s, before),
        !s.contains(x),
        strict_on(all, before),
        all.contains(x),
        forall|y: A| #[trigger] s.contains(y) ==> all.contains(y),
    ensures
        ordered_by(insert_by(s, x, before), before),
    decreases s.len(),
{
    if s.len() == 0 {
    } else if before(x, s[0]) {
        let t = seq![x] + s;
        assert forall|i: int, j: int| 0 <= i < j < t.len() implies #[trigger] before(t[i], t[j]) by {
            if i == 0 {
                if j > 1 {
                    assert(s.contains(s[j - 1]));
                    assert(s.contains(s[0]));
                    assert(before(s[0], s[j - 1]));
                }
            } else {
                assert(before(s[i - 1], s[j - 1]));
            }
        }
    } else {
        let rest = s.drop_first();
        assert(s.contains(s[0]));
        assert(x != s[0]);
        assert(before(s[0], x));
        assert forall|y: A| #[trigger] rest.contains(y) implies all.contains(y) by {
            let k = choose|k: int| 0 <= k < rest.len() && rest[k] == y;
            assert(s[k + 1] == y);
            assert(s.contains(y));
        }
        assert(!rest.contains(x)) by {
            if rest.contains(x) {
                let k = choose|k: int| 0 <= k < rest.len() && rest[k] == x;
                assert(s[k + 1] == x);
            }
        }
        assert(ordered_by(rest, before)) by {
            assert forall|i: int, j: int| 0 <= i < j < rest.len() implies #[trigger] before(rest[i], rest[j]) by {
                assert(before(s[i + 1], s[j + 1]));
            }
        }
        lemma_insert_by_ordered(rest, x, before, all);
        let ins = insert_by(rest, x, before);
        lemma_insert_by_multiset(rest, x, before);
        let t = seq![s[0]] + ins;
        assert forall|i: int, j: int| 0 <= i < j < t.len() implies #[trigger] before(t[i], t[j]) by {
            if i == 0 {
                let y = ins[j - 1];
                assert(ins.contains(y));
                broadcast use vstd::seq_lib::group_to_multiset_ensures;
                broadcast use vstd::multiset::group_multiset_axioms;
                assert(ins.to_multiset().count(y) > 0);
                if y != x {
                    assert(rest.to_multiset().count(y) > 0);
                    assert(rest.contains(y));
                    let k = choose|k: int| 0 <= k < rest.len() && rest[k] == y;
                    assert(before(s[0], s[k + 1]));
                }
            } else {
                assert(before(ins[i - 1], ins[j - 1]));
            }
        }
    }
}

/// Sorting a sequence of distinct elements that `before` orders strictly
/// gives an ordered sequence.
pub proof fn lemma_sort_by_ordered<A>(s: Seq<A>, before: spec_fn(A, A) -> bool)
    requires
        s.no_duplicates(),
        strict_on(s, before),
    ensures
        ordered_by(sort_by(s, before), before),
    decreases s.len(),
{
    if s.len() > 0 {
        let d = s.drop_last();
        assert forall|a: A| #[trigger] d.contains(a) implies s.contains(a) by {
            let k = choose|k: int| 0 <= k < d.len() && d[k] == a;
            assert(s[k] == a);
        }
        assert(d.no_duplicates());
        assert(strict_on(d, before));
        lemma_sort_by_ordered(d, before);
        lemma_sort_by_multiset(d, before);
        let sd = sort_by(d, before);
        assert(!d.contains(s.last())) by {
            if d.contains(s.last()) {
                let k = choose|k: int| 0 <= k < d.len() && d[k] == s.last();
                assert(s[k] == s[s.len() - 1]);
            }
        }
        lemma_same_multiset_contains(sd, d, s.last());
        assert forall|y: A| #[trigger] sd.contains(y) implies s.contains(y) by {
            lemma_same_multiset_contains(sd, d, y);
        }
        assert(s.contains(s.last())) by {
            assert(s[s.len() - 1] == s.last());
        }
        lemma_insert_by_ordered(sd, s.last(), before, s);
    }
}

/// Two ordered sequences with the same elements, on which `before` is
/// strict, are equal.
pub proof fn lemma_ordered_unique<A>(x: Seq<A>, y: Seq<A>, before: spec_fn(A, A) -> bool)
    requires
        ordered_by(x, before),
        ordered_by(y, before),
        strict_on(x, before),
        x.to_multiset() == y.to_multiset(),
    ensures
        x == y,
    decreases x.len(),
{
    broadcast use vstd::multiset::group_multiset_axioms;
    broadcast use vstd::seq_lib::group_to_multiset_ensures;
    x.to_multiset_ensures();
    y.to_multiset_ensures();
    assert(x.to_multiset().len() == y.to_multiset().len());
    if x.len() == 0 || y.len() == 0 {
        assert(x.len() == y.len());
        assert(x =~= y);
    } else {
        assert(x.to_multiset().count(y[0]) > 0);
        assert(x.contains(y[0]));
        assert(y.to_multiset().count(x[0]) > 0);
        assert(y.contains(x[0]));
        let i = choose|i: int| 0 <= i < x.len() && x[i] == y[0];
        let j = choose|j: int| 0 <= j < y.len() && y[j] == x[0];
        assert(x.contains(x[0]));
        if i > 0 && j > 0 {
            assert(before(x[0], x[i]));
            assert(before(y[0], y[j]));
            assert(before(x[0], y[0]));
            assert(before(y[0], x[0]));
            assert(before(x[0], x[0]));
        }
        assert(x[0] == y[0]);
        assert(x.remove(0) =~= x.drop_first());
        assert(y.remove(0) =~= y.drop_first());
        assert(x.drop_first().to_multiset() == y.drop_first().to_multiset());
        assert(ordered_by(x.drop_first(), before)) by {
            assert forall|a: int, b: int| 0 <= a < b < x.drop_first().len() implies #[trigger] before(x.drop_first()[a], x.drop_first()[b]) by {
                assert(before(x[a + 1], x[b + 1]));
            }
        }
        assert(ordered_by(y.drop_first(), before)) by {
            assert forall|a: int, b: int| 0 <= a < b < y.drop_first().len() implies #[trigger] before(y.drop_first()[a], y.drop_first()[b]) by {
                assert(before(y[a + 1], y[b + 1]));
            }
        }
        let xd = x.drop_first();
        assert forall|a: A| #[trigger] xd.contains(a) implies x.contains(a) by {
            let k = choose|k: int| 0 <= k < xd.len() && xd[k] == a;
            assert(x[k + 1] == a);
        }
        assert(strict_on(xd, before));
        lemma_ordered_unique(xd, y.drop_first(), before);
        assert(x =~= seq![x[0]] + xd);
        assert(y =~= seq![y[0]] + y.drop_first());
        assert(x =~= y);
    }
}

/// Sorting distinct elements that `before` orders strictly gives one
/// result, whatever order they come in.
pub proof fn lemma_sort_by_ignores_order<A>(s1: Seq<A>, s2: Seq<A>, before: spec_fn(A, A) -> bool)
    requires
        s1.to_multiset() == s2.to_multiset(),
        s1.no_duplicates(),
        strict_on(s1, before),
    ensures
        sort_by(s1, before) == sort_by(s2, before),
{
    broadcast use vstd::multiset::group_multiset_axioms;
    broadcast use vstd::seq_lib::group_to_multiset_ensures;
    assert forall|a: A| s2.contains(a) == s1.contains(a) by {
        lemma_same_multiset_contains(s1, s2, a);
    }
    assert(strict_on(s2, before));
    s1.lemma_multiset_has_no_duplicates();
    assert forall|x: A| s2.to_multiset().contains(x) implies s2.to_multiset().count(x) == 1 by {
    }
    s2.lemma_multiset_has_no_duplicates_conv();
    lemma_sort_by_ordered(s1, before);
    lemma_sort_by_ordered(s2, before);
    lemma_sort_by_multiset(s1, before);
    lemma_sort_by_multiset(s2, before);
    let t1 = sort_by(s1, before);
    assert forall|a: A| #[trigger] t1.contains(a) implies s1.contains(a) by {
        lemma_same_multiset_contains(t1, s1, a);
    }
    assert(strict_on(t1, before));
    lemma_ordered_unique(t1, sort_by(s2, before), before);
}

} // verus!
