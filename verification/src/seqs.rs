//! Operations on vectors that keep the order of their elements.

use vstd::prelude::*;

verus! {

/// The position of the first element that satisfies `p`.
pub open spec fn first_index<T>(s: Seq<T>, p: spec_fn(T) -> bool) -> Option<int>
    decreases s.len(),
{
    if s.len() == 0 {
        None
    } else {
        match first_index(s.drop_last(), p) {
            Some(i) => Some(i),
            None => if p(s.last()) {
                Some(s.len() - 1)
            } else {
                None
            },
        }
    }
}

/// The position of the last element that satisfies `p`.
pub open spec fn last_index<T>(s: Seq<T>, p: spec_fn(T) -> bool) -> Option<int>
    decreases s.len(),
{
    if s.len() == 0 {
        None
    } else if p(s.last()) {
        Some(s.len() - 1)
    } else {
        last_index(s.drop_last(), p)
    }
}

/// The first element that satisfies `p`.
pub open spec fn first_where<T>(s: Seq<T>, p: spec_fn(T) -> bool) -> Option<T> {
    match first_index(s, p) {
        Some(i) => Some(s[i]),
        None => None,
    }
}

/// The last element that satisfies `p`.
pub open spec fn last_where<T>(s: Seq<T>, p: spec_fn(T) -> bool) -> Option<T> {
    match last_index(s, p) {
        Some(i) => Some(s[i]),
        None => None,
    }
}

/// Whether some element satisfies `p`.
pub open spec fn any_where<T>(s: Seq<T>, p: spec_fn(T) -> bool) -> bool {
    exists|i: int| 0 <= i < s.len() && p(#[trigger] s[i])
}

/// The first position is in range, its element satisfies `p`, and no earlier
/// one does; there is none exactly when no element satisfies `p`.
pub proof fn first_index_meaning<T>(s: Seq<T>, p: spec_fn(T) -> bool)
    ensures
        match first_index(s, p) {
            Some(i) => 0 <= i < s.len() && p(s[i]) && forall|j: int|
                0 <= j < i ==> !p(#[trigger] s[j]),
            None => forall|j: int| 0 <= j < s.len() ==> !p(#[trigger] s[j]),
        },
    decreases s.len(),
{
    if s.len() > 0 {
        first_index_meaning(s.drop_last(), p);
        assert(forall|j: int| 0 <= j < s.len() - 1 ==> s.drop_last()[j] == s[j]);
        assert forall|j: int| 0 <= j < s.len() - 1 && first_index(s.drop_last(), p) is None implies !p(
            #[trigger] s[j],
        ) by {
            assert(!p(s.drop_last()[j]));
        }
        if first_index(s.drop_last(), p) is Some {
            let i = first_index(s.drop_last(), p)->Some_0;
            assert forall|j: int| 0 <= j < i implies !p(#[trigger] s[j]) by {
                assert(!p(s.drop_last()[j]));
            }
        }
    }
}

/// The last position is in range, its element satisfies `p`, and no later one
/// does; there is none exactly when no element satisfies `p`.
pub proof fn last_index_meaning<T>(s: Seq<T>, p: spec_fn(T) -> bool)
    ensures
        match last_index(s, p) {
            Some(i) => 0 <= i < s.len() && p(s[i]) && forall|j: int|
                i < j < s.len() ==> !p(#[trigger] s[j]),
            None => forall|j: int| 0 <= j < s.len() ==> !p(#[trigger] s[j]),
        },
    decreases s.len(),
{
    if s.len() > 0 && !p(s.last()) {
        last_index_meaning(s.drop_last(), p);
        assert forall|j: int|
            0 <= j < s.len() && (last_index(s, p) is None || last_index(s, p)->Some_0
                < j) implies !p(#[trigger] s[j]) by {
            if j < s.len() - 1 {
                assert(!p(s.drop_last()[j]));
            }
        }
    }
}

/// The position of the first element for which `test` holds.
pub fn position<T, F: Fn(&T) -> bool>(
    v: &Vec<T>,
    test: F,
    Ghost(p): Ghost<spec_fn(T) -> bool>,
) -> (r: Option<usize>)
    requires
        forall|x: &T| call_requires(test, (x,)),
        forall|x: &T, b: bool| call_ensures(test, (x,), b) ==> b == p(*x),
    ensures
        match r {
            Some(i) => first_index(v@, p) == Some(i as int) && i < v@.len(),
            None => first_index(v@, p) is None,
        },
{
    for i in 0..v.len()
        invariant
            forall|x: &T| call_requires(test, (x,)),
            forall|x: &T, b: bool| call_ensures(test, (x,), b) ==> b == p(*x),
            first_index(v@.take(i as int), p) is None,
    {
        assert(v@.take(i + 1).drop_last() =~= v@.take(i as int));
        if test(&v[i]) {
            proof {
                assert(first_index(v@.take(i + 1), p) == Some(i as int));
                first_index_of_longer(v@, i + 1, p);
            }
            return Some(i);
        }
    }
    assert(v@.take(v@.len() as int) =~= v@);
    None
}

/// What is found in a prefix is found in the whole.
proof fn first_index_of_longer<T>(s: Seq<T>, n: int, p: spec_fn(T) -> bool)
    requires
        0 <= n <= s.len(),
        first_index(s.take(n), p) is Some,
    ensures
        first_index(s, p) == first_index(s.take(n), p),
    decreases s.len(),
{
    if n < s.len() {
        assert(s.drop_last().take(n) =~= s.take(n));
        first_index_of_longer(s.drop_last(), n, p);
    } else {
        assert(s.take(n) =~= s);
    }
}

/// The position of the last element for which `test` holds.
pub fn last_position<T, F: Fn(&T) -> bool>(
    v: &Vec<T>,
    test: F,
    Ghost(p): Ghost<spec_fn(T) -> bool>,
) -> (r: Option<usize>)
    requires
        forall|x: &T| call_requires(test, (x,)),
        forall|x: &T, b: bool| call_ensures(test, (x,), b) ==> b == p(*x),
    ensures
        match r {
            Some(i) => last_index(v@, p) == Some(i as int) && i < v@.len(),
            None => last_index(v@, p) is None,
        },
{
    let mut n: usize = v.len();
    assert(v@.take(n as int) =~= v@);
    while n > 0
        invariant
            forall|x: &T| call_requires(test, (x,)),
            forall|x: &T, b: bool| call_ensures(test, (x,), b) ==> b == p(*x),
            n <= v@.len(),
            last_index(v@, p) == last_index(v@.take(n as int), p),
        decreases n,
    {
        assert(v@.take(n as int).drop_last() =~= v@.take(n - 1));
        if test(&v[n - 1]) {
            return Some(n - 1);
        }
        n = n - 1;
    }
    None
}

/// Whether `test` holds of some element.
pub fn any<T, F: Fn(&T) -> bool>(
    v: &Vec<T>,
    test: F,
    Ghost(p): Ghost<spec_fn(T) -> bool>,
) -> (r: bool)
    requires
        forall|x: &T| call_requires(test, (x,)),
        forall|x: &T, b: bool| call_ensures(test, (x,), b) ==> b == p(*x),
    ensures
        r == any_where(v@, p),
{
    let found = position(v, test, Ghost(p));
    proof {
        first_index_meaning(v@, p);
    }
    found.is_some()
}

/// Removes every element for which `keep` does not hold.
pub fn retain<T, F: Fn(&T) -> bool>(v: &mut Vec<T>, keep: F, Ghost(p): Ghost<spec_fn(T) -> bool>)
    requires
        forall|x: &T| call_requires(keep, (x,)),
        forall|x: &T, b: bool| call_ensures(keep, (x,), b) ==> b == p(*x),
    ensures
        final(v)@ == old(v)@.filter(p),
{
    let ghost all = v@;
    let ghost mut seen: int = 0;
    let mut i: usize = 0;
    reveal(Seq::filter);
    while i < v.len()
        invariant
            forall|x: &T| call_requires(keep, (x,)),
            forall|x: &T, b: bool| call_ensures(keep, (x,), b) ==> b == p(*x),
            0 <= seen <= all.len(),
            i == all.take(seen).filter(p).len(),
            v@ =~= all.take(seen).filter(p) + all.skip(seen),
        decreases all.len() - seen,
    {
        reveal(Seq::filter);
        assert(all.take(seen + 1).drop_last() =~= all.take(seen));
        assert(v@[i as int] == all[seen]);
        if keep(&v[i]) {
            i = i + 1;
        } else {
            v.remove(i);
        }
        proof {
            seen = seen + 1;
        }
    }
    assert(seen == all.len());
    assert(all.take(seen) =~= all);
}

/// Tests that agree on the elements keep the same ones.
pub proof fn filters_agree<T>(s: Seq<T>, p: spec_fn(T) -> bool, q: spec_fn(T) -> bool)
    requires
        forall|i: int| 0 <= i < s.len() ==> p(#[trigger] s[i]) == q(s[i]),
    ensures
        s.filter(p) == s.filter(q),
    decreases s.len(),
{
    reveal(Seq::filter);
    if s.len() > 0 {
        assert forall|i: int| 0 <= i < s.drop_last().len() implies p(#[trigger] s.drop_last()[i])
            == q(s.drop_last()[i]) by {
            assert(s.drop_last()[i] == s[i]);
        }
        filters_agree(s.drop_last(), p, q);
        assert(p(s[s.len() - 1]) == q(s[s.len() - 1]));
    }
}

/// Filtering twice keeps what passes both tests.
pub proof fn filter_twice<T>(
    s: Seq<T>,
    p: spec_fn(T) -> bool,
    q: spec_fn(T) -> bool,
    both: spec_fn(T) -> bool,
)
    requires
        forall|i: int| 0 <= i < s.len() ==> both(#[trigger] s[i]) == (p(s[i]) && q(s[i])),
    ensures
        s.filter(p).filter(q) == s.filter(both),
    decreases s.len(),
{
    reveal(Seq::filter);
    if s.len() > 0 {
        let rest = s.drop_last();
        assert forall|i: int| 0 <= i < rest.len() implies both(#[trigger] rest[i]) == (p(rest[i])
            && q(rest[i])) by {
            assert(rest[i] == s[i]);
        }
        filter_twice(rest, p, q, both);
        assert(both(s[s.len() - 1]) == (p(s[s.len() - 1]) && q(s[s.len() - 1])));
        if p(s.last()) {
            assert(s.filter(p).drop_last() =~= rest.filter(p));
        }
    }
}

/// What a filter keeps stands in its old order: the positions ascend.
pub proof fn filtered_positions<T>(s: Seq<T>, p: spec_fn(T) -> bool) -> (at: Seq<int>)
    ensures
        at.len() == s.filter(p).len(),
        forall|i: int| 0 <= i < at.len() ==> 0 <= #[trigger] at[i] < s.len() && s.filter(p)[i]
            == s[at[i]] && p(s[at[i]]),
        forall|i: int, j: int| 0 <= i < j < at.len() ==> #[trigger] at[i] < #[trigger] at[j],
    decreases s.len(),
{
    reveal(Seq::filter);
    if s.len() == 0 {
        Seq::empty()
    } else {
        let before = filtered_positions(s.drop_last(), p);
        if p(s.last()) {
            let at = before.push(s.len() - 1);
            at
        } else {
            before
        }
    }
}

/// What satisfies the test is kept.
pub proof fn filter_keeps<T>(s: Seq<T>, p: spec_fn(T) -> bool, i: int)
    requires
        0 <= i < s.len(),
        p(s[i]),
    ensures
        exists|k: int| 0 <= k < s.filter(p).len() && #[trigger] s.filter(p)[k] == s[i],
    decreases s.len(),
{
    reveal(Seq::filter);
    let kept = s.filter(p);
    if i == s.len() - 1 {
        assert(kept[kept.len() - 1] == s[i]);
    } else {
        filter_keeps(s.drop_last(), p, i);
        let k = choose|k: int|
            0 <= k < s.drop_last().filter(p).len() && #[trigger] s.drop_last().filter(p)[k] == s[i];
        assert(kept[k] == s[i]);
    }
}

/// What has a place in an order. Two values of which neither comes before the
/// other have the same place.
pub trait Ranked: Sized {
    spec fn before(&self, other: &Self) -> bool;

    /// Of two values at most one comes before the other, and what comes before
    /// one of them comes before a third or has it before the other.
    proof fn ranking(a: &Self, b: &Self, c: &Self)
        ensures
            !(a.before(b) && b.before(a)),
            a.before(c) ==> a.before(b) || b.before(c),
    ;

    fn ranks_before(&self, other: &Self) -> (r: bool)
        ensures
            r == self.before(other),
    ;
}

/// `s`, already in order, with `x` put before the first element that does not
/// come before it.
pub open spec fn placed<T: Ranked>(s: Seq<T>, x: T) -> Seq<T>
    decreases s.len(),
{
    if s.len() == 0 || !s[0].before(&x) {
        seq![x] + s
    } else {
        seq![s[0]] + placed(s.skip(1), x)
    }
}

/// The elements of `s` in order; elements with the same place stay in the order
/// in which they stood.
pub open spec fn in_order<T: Ranked>(s: Seq<T>) -> Seq<T>
    decreases s.len(),
{
    if s.len() == 0 {
        s
    } else {
        placed(in_order(s.skip(1)), s[0])
    }
}

/// Whether no element of `s` comes before one that stands earlier.
pub open spec fn ordered<T: Ranked>(s: Seq<T>) -> bool {
    forall|i: int, j: int|
        #![trigger s[i], s[j]]
        0 <= i < j < s.len() ==> !s[j].before(&s[i])
}

proof fn placed_is_ordered<T: Ranked>(s: Seq<T>, x: T)
    requires
        ordered(s),
    ensures
        ordered(placed(s, x)),
        placed(s, x).to_multiset() == s.to_multiset().insert(x),
        placed(s, x).len() == s.len() + 1,
    decreases s.len(),
{
    broadcast use vstd::seq_lib::group_to_multiset_ensures;

    let r = placed(s, x);
    if s.len() == 0 || !s[0].before(&x) {
        assert(r =~= s.insert(0, x));
        assert forall|i: int, j: int|
            #![trigger r[i], r[j]]
            0 <= i < j < r.len() implies !r[j].before(&r[i]) by {
            if i == 0 {
                T::ranking(&s[j - 1], &s[0], &x);
                if j > 1 {
                    assert(!s[j - 1].before(&s[0]));
                }
            } else {
                assert(!s[j - 1].before(&s[i - 1]));
            }
        }
    } else {
        let rest = s.skip(1);
        assert forall|i: int, j: int|
            #![trigger rest[i], rest[j]]
            0 <= i < j < rest.len() implies !rest[j].before(&rest[i]) by {
            assert(!s[j + 1].before(&s[i + 1]));
        }
        placed_is_ordered(rest, x);
        let tail = placed(rest, x);
        assert(r =~= tail.insert(0, s[0]));
        assert(s =~= rest.insert(0, s[0]));
        assert(r.to_multiset() =~= s.to_multiset().insert(x));
        assert forall|j: int| 0 <= j < tail.len() implies !(#[trigger] tail[j]).before(&s[0]) by {
            assert(tail.to_multiset().count(tail[j]) > 0) by {
                assert(tail.contains(tail[j]));
            }
            if tail[j] == x {
                T::ranking(&s[0], &x, &x);
            } else {
                assert(rest.to_multiset().count(tail[j]) > 0);
                assert(rest.contains(tail[j]));
                let k = rest.index_of(tail[j]);
                assert(!s[k + 1].before(&s[0]));
            }
        }
        assert forall|i: int, j: int|
            #![trigger r[i], r[j]]
            0 <= i < j < r.len() implies !r[j].before(&r[i]) by {
            if i == 0 {
                assert(!tail[j - 1].before(&s[0]));
            } else {
                assert(!tail[j - 1].before(&tail[i - 1]));
            }
        }
    }
}

/// Sorting puts the elements in order and loses or repeats none.
pub proof fn in_order_is_ordered<T: Ranked>(s: Seq<T>)
    ensures
        ordered(in_order(s)),
        in_order(s).to_multiset() == s.to_multiset(),
        in_order(s).len() == s.len(),
    decreases s.len(),
{
    broadcast use vstd::seq_lib::group_to_multiset_ensures;

    if s.len() > 0 {
        in_order_is_ordered(s.skip(1));
        placed_is_ordered(in_order(s.skip(1)), s[0]);
        assert(s =~= s.skip(1).insert(0, s[0]));
        assert(in_order(s).to_multiset() =~= s.to_multiset());
    }
}

/// The test for what has the same place as `y`.
pub open spec fn ties_with<T: Ranked>(y: T) -> spec_fn(T) -> bool {
    |x: T| !x.before(&y) && !y.before(&x)
}

proof fn filtered_first<T>(x: T, s: Seq<T>, p: spec_fn(T) -> bool)
    ensures
        (seq![x] + s).filter(p) == if p(x) {
            seq![x] + s.filter(p)
        } else {
            s.filter(p)
        },
{
    Seq::filter_distributes_over_add(seq![x], s, p);
    reveal(Seq::filter);
    assert(seq![x].drop_last() =~= Seq::<T>::empty());
    assert(Seq::<T>::empty().filter(p) =~= Seq::<T>::empty());
    assert(seq![x].filter(p) =~= if p(x) {
        seq![x]
    } else {
        Seq::<T>::empty()
    });
    assert(Seq::<T>::empty() + s.filter(p) =~= s.filter(p));
}

proof fn placed_keeps_ties<T: Ranked>(s: Seq<T>, x: T, y: T)
    ensures
        placed(s, x).filter(ties_with(y)) == (seq![x] + s).filter(ties_with(y)),
    decreases s.len(),
{
    if s.len() > 0 && s[0].before(&x) {
        let p = ties_with(y);
        let rest = s.skip(1);
        placed_keeps_ties(rest, x, y);
        T::ranking(&s[0], &y, &x);
        assert(s =~= seq![s[0]] + rest);
        filtered_first(s[0], placed(rest, x), p);
        filtered_first(x, rest, p);
        filtered_first(x, s, p);
        filtered_first(s[0], rest, p);
    }
}

/// Elements with the same place stay in the order in which they stood.
pub proof fn in_order_keeps_ties<T: Ranked>(s: Seq<T>, y: T)
    ensures
        in_order(s).filter(ties_with(y)) == s.filter(ties_with(y)),
    decreases s.len(),
{
    if s.len() > 0 {
        let rest = s.skip(1);
        in_order_keeps_ties(rest, y);
        placed_keeps_ties(in_order(rest), s[0], y);
        filtered_first(s[0], in_order(rest), ties_with(y));
        filtered_first(s[0], rest, ties_with(y));
        assert(s =~= seq![s[0]] + rest);
    }
}

/// Puts the elements in order, those with the same place as they stood.
pub fn sort<T: Ranked>(v: Vec<T>) -> (r: Vec<T>)
    ensures
        r@ == in_order(v@),
{
    let ghost all = v@;
    let mut rest = v;
    let mut r: Vec<T> = Vec::new();
    assert(all.skip(all.len() as int) =~= Seq::<T>::empty());
    assert(all.take(all.len() as int) =~= all);
    while rest.len() > 0
        invariant
            rest@.len() <= all.len(),
            rest@ =~= all.take(rest@.len() as int),
            r@ == in_order(all.skip(rest@.len() as int)),
        decreases rest@.len(),
    {
        let ghost n = rest@.len();
        match rest.pop() {
            Some(x) => {
                assert(x == all[n - 1]);
                assert(all.skip(n - 1).skip(1) =~= all.skip(n as int));
                assert(all.skip(n - 1)[0] == x);
                place(&mut r, x);
            },
            None => {},
        }
    }
    assert(all.skip(0) =~= all);
    r
}

fn place<T: Ranked>(v: &mut Vec<T>, x: T)
    ensures
        final(v)@ == placed(old(v)@, x),
{
    let ghost all = v@;
    let mut i: usize = 0;
    assert(all.take(0) + placed(all.skip(0), x) =~= placed(all, x)) by {
        assert(all.skip(0) =~= all);
    }
    while i < v.len() && v[i].ranks_before(&x)
        invariant
            v@ == all,
            i <= all.len(),
            placed(all, x) == all.take(i as int) + placed(all.skip(i as int), x),
        decreases all.len() - i,
    {
        proof {
            let rest = all.skip(i as int);
            assert(rest.skip(1) =~= all.skip(i + 1));
            assert(rest[0] == all[i as int]);
            assert(all.take(i as int) + (seq![rest[0]] + placed(rest.skip(1), x)) =~= all.take(
                i + 1,
            ) + placed(all.skip(i + 1), x));
        }
        i = i + 1;
    }
    proof {
        let rest = all.skip(i as int);
        if i < all.len() {
            assert(rest[0] == all[i as int]);
        }
        assert(all.take(i as int) + (seq![x] + rest) =~= all.insert(i as int, x));
    }
    v.insert(i, x);
}

} // verus!
