//! Lists: what is found first in one, what is kept of one, and putting one in
//! order.

use vstd::prelude::*;

use crate::plain::Plain;
use crate::text;
use crate::text::before;

verus! {

/// The place of the first item that a test accepts.
pub open spec fn first<T>(s: Seq<T>, p: spec_fn(T) -> bool) -> Option<int>
    decreases s.len(),
{
    if s.len() == 0 {
        None
    } else if p(s[0]) {
        Some(0)
    } else {
        match first(s.drop_first(), p) {
            Some(i) => Some(i + 1),
            None => None,
        }
    }
}

/// The first item is accepted and none before it is, or none is at all.
pub proof fn lemma_first<T>(s: Seq<T>, p: spec_fn(T) -> bool)
    ensures
        match first(s, p) {
            Some(i) => 0 <= i < s.len() && p(s[i]) && forall|j: int| 0 <= j < i
                ==> !p(#[trigger] s[j]),
            None => forall|j: int| 0 <= j < s.len() ==> !p(#[trigger] s[j]),
        },
    decreases s.len(),
{
    if s.len() > 0 && !p(s[0]) {
        lemma_first(s.drop_first(), p);
        assert forall|j: int| 0 <= j < s.len() && j != 0 implies #[trigger] s[j]
            == s.drop_first()[j - 1] by {}
    }
}

/// The first item that a test accepts.
pub open spec fn found<T>(s: Seq<T>, p: spec_fn(T) -> bool) -> Option<T> {
    match first(s, p) {
        Some(i) => Some(s[i]),
        None => None,
    }
}

/// Whether a test accepts some item.
pub open spec fn any<T>(s: Seq<T>, p: spec_fn(T) -> bool) -> bool {
    exists|i: int| 0 <= i < s.len() && p(#[trigger] s[i])
}

/// The items that a test accepts, in their order.
pub open spec fn kept<T>(s: Seq<T>, p: spec_fn(T) -> bool) -> Seq<T>
    decreases s.len(),
{
    if s.len() == 0 {
        Seq::empty()
    } else if p(s.last()) {
        kept(s.drop_last(), p).push(s.last())
    } else {
        kept(s.drop_last(), p)
    }
}

pub proof fn lemma_kept_push<T>(s: Seq<T>, x: T, p: spec_fn(T) -> bool)
    ensures
        kept(s.push(x), p) == (if p(x) {
            kept(s, p).push(x)
        } else {
            kept(s, p)
        }),
{
    assert(s.push(x).drop_last() =~= s);
}

/// Every kept item is one of the list's that the test accepts, and each such
/// item is kept.
pub proof fn lemma_kept<T>(s: Seq<T>, p: spec_fn(T) -> bool)
    ensures
        forall|x: T| #[trigger] kept(s, p).contains(x) <==> s.contains(x) && p(x),
    decreases s.len(),
{
    if s.len() > 0 {
        let front = s.drop_last();
        lemma_kept(front, p);
        assert(s =~= front.push(s.last()));
        assert forall|x: T| #[trigger] kept(s, p).contains(x) <==> s.contains(x) && p(x) by {
            lemma_push_contains(front, s.last(), x);
            lemma_push_contains(kept(front, p), s.last(), x);
        }
    }
}

proof fn lemma_push_contains<T>(s: Seq<T>, y: T, x: T)
    ensures
        s.push(y).contains(x) <==> s.contains(x) || x == y,
{
    if s.contains(x) {
        let i = choose|i: int| 0 <= i < s.len() && s[i] == x;
        assert(s.push(y)[i] == x);
    }
    assert(s.push(y)[s.len() as int] == y);
    if s.push(y).contains(x) {
        let i = choose|i: int| 0 <= i < s.push(y).len() && s.push(y)[i] == x;
        if i < s.len() {
            assert(s[i] == x);
        }
    }
}

// ---------------------------------------------------------------------------
// Order

/// An item put where it belongs in an ordered list, after its equals.
pub open spec fn placed<T>(s: Seq<T>, x: T, key: spec_fn(T) -> Seq<char>) -> Seq<T>
    decreases s.len(),
{
    if s.len() > 0 && before(key(x), key(s.last())) {
        placed(s.drop_last(), x, key).push(s.last())
    } else {
        s.push(x)
    }
}

/// The items in the order of their keys, equals in the order they had.
pub open spec fn sorted<T>(s: Seq<T>, key: spec_fn(T) -> Seq<char>) -> Seq<T>
    decreases s.len(),
{
    if s.len() == 0 {
        s
    } else {
        placed(sorted(s.drop_last(), key), s.last(), key)
    }
}

/// Whether no item comes after one that it is before.
pub open spec fn ordered<T>(s: Seq<T>, key: spec_fn(T) -> Seq<char>) -> bool {
    forall|i: int, j: int|
        0 <= i < j < s.len() ==> !before(key(#[trigger] s[j]), key(#[trigger] s[i]))
}

/// Being before carries over.
pub proof fn before_is_transitive(a: Seq<char>, b: Seq<char>, c: Seq<char>)
    ensures
        before(a, b) && before(b, c) ==> before(a, c),
        !before(a, a),
        before(a, b) ==> !before(b, a),
        !before(a, b) && !before(b, a) ==> a == b,
    decreases a.len(),
{
    if a.len() > 0 && b.len() > 0 && c.len() > 0 {
        before_is_transitive(a.drop_first(), b.drop_first(), c.drop_first());
    } else if a.len() > 0 {
        before_is_transitive(a.drop_first(), b.drop_first(), c.drop_first());
    }
    if a.len() > 0 && b.len() > 0 && a[0] == b[0] && a.drop_first() == b.drop_first() {
        assert(a =~= seq![a[0]] + a.drop_first());
        assert(b =~= seq![b[0]] + b.drop_first());
    }
    if a.len() == 0 && b.len() == 0 {
        assert(a =~= b);
    }
}

proof fn lemma_placed<T>(s: Seq<T>, x: T, key: spec_fn(T) -> Seq<char>)
    requires
        ordered(s, key),
    ensures
        ordered(placed(s, x, key), key),
        placed(s, x, key).to_multiset() =~= s.to_multiset().insert(x),
        placed(s, x, key).len() == s.len() + 1,
    decreases s.len(),
{
    broadcast use vstd::seq_lib::group_to_multiset_ensures;

    let r = placed(s, x, key);
    if s.len() > 0 && before(key(x), key(s.last())) {
        let front = s.drop_last();
        lemma_placed(front, x, key);
        let p = placed(front, x, key);
        assert(s =~= front.push(s.last()));
        assert forall|i: int, j: int| 0 <= i < j < r.len() implies !before(
            key(#[trigger] r[j]),
            key(#[trigger] r[i]),
        ) by {
            if j == r.len() - 1 {
                assert(r[i] == p[i]);
                assert(p.to_multiset().contains(p[i]));
                assert(front.to_multiset().insert(x).contains(p[i]));
                if p[i] == x {
                    before_is_transitive(key(x), key(s.last()), key(x));
                } else {
                    assert(front.to_multiset().contains(p[i]));
                    let k = choose|k: int| 0 <= k < front.len() && front[k] == p[i];
                    assert(s[k] == p[i]);
                    assert(s[s.len() - 1] == s.last());
                }
            }
        }
    } else {
        assert forall|i: int, j: int| 0 <= i < j < r.len() implies !before(
            key(#[trigger] r[j]),
            key(#[trigger] r[i]),
        ) by {
            if j == r.len() - 1 {
                before_is_transitive(key(x), key(s[i]), key(s.last()));
                before_is_transitive(key(s.last()), key(s[i]), key(x));
                if i < s.len() - 1 {
                    assert(!before(key(s[s.len() - 1]), key(s[i])));
                }
            }
        }
    }
}

/// Sorting keeps exactly the items there were, and puts them in order.
pub proof fn sorting_orders<T>(s: Seq<T>, key: spec_fn(T) -> Seq<char>)
    ensures
        ordered(sorted(s, key), key),
        sorted(s, key).to_multiset() =~= s.to_multiset(),
        sorted(s, key).len() == s.len(),
    decreases s.len(),
{
    broadcast use vstd::seq_lib::group_to_multiset_ensures;

    if s.len() > 0 {
        sorting_orders(s.drop_last(), key);
        lemma_placed(sorted(s.drop_last(), key), s.last(), key);
        assert(s =~= s.drop_last().push(s.last()));
    }
}

/// Two lists in order that hold the same items are the same list.
proof fn lemma_one_order<T>(a: Seq<T>, b: Seq<T>, key: spec_fn(T) -> Seq<char>)
    requires
        ordered(a, key),
        ordered(b, key),
        a.to_multiset() == b.to_multiset(),
        forall|x: T, y: T| #[trigger]
            a.contains(x) && #[trigger] a.contains(y) && key(x) == key(y) ==> x == y,
    ensures
        a == b,
    decreases a.len(),
{
    broadcast use vstd::seq_lib::group_to_multiset_ensures;

    assert(a.len() == a.to_multiset().len() && b.len() == b.to_multiset().len());
    if a.len() == 0 {
        assert(a =~= b);
    } else {
        let x = a.last();
        let y = b.last();
        assert(a[a.len() - 1] == x && b[b.len() - 1] == y);
        assert(b.to_multiset().contains(y) && a.to_multiset().contains(x));
        assert(a.contains(y) && b.contains(x));
        let i = choose|i: int| 0 <= i < a.len() && a[i] == y;
        let j = choose|j: int| 0 <= j < b.len() && b[j] == x;
        before_is_transitive(key(x), key(y), key(x));
        assert(x == y);
        assert(a =~= a.drop_last().push(x));
        assert(b =~= b.drop_last().push(x));
        assert(a.drop_last().to_multiset() =~= a.to_multiset().remove(x));
        assert(b.drop_last().to_multiset() =~= b.to_multiset().remove(x));
        assert forall|u: T, v: T| #[trigger]
            a.drop_last().contains(u) && #[trigger] a.drop_last().contains(v) && key(u) == key(
            v,
        ) implies u == v by {
            assert(a.contains(u) && a.contains(v));
        }
        lemma_one_order(a.drop_last(), b.drop_last(), key);
    }
}

/// Sorting forgets the order that the items had, where no two items share a
/// key.
pub proof fn sorting_forgets_the_order<T>(s: Seq<T>, t: Seq<T>, key: spec_fn(T) -> Seq<char>)
    requires
        s.to_multiset() == t.to_multiset(),
        forall|x: T, y: T| #[trigger]
            s.contains(x) && #[trigger] s.contains(y) && key(x) == key(y) ==> x == y,
    ensures
        sorted(s, key) == sorted(t, key),
{
    broadcast use vstd::seq_lib::group_to_multiset_ensures;

    sorting_orders(s, key);
    sorting_orders(t, key);
    let a = sorted(s, key);
    assert forall|x: T, y: T| #[trigger]
        a.contains(x) && #[trigger] a.contains(y) && key(x) == key(y) implies x == y by {
        assert(a.to_multiset().contains(x) && a.to_multiset().contains(y));
        assert(s.contains(x) && s.contains(y));
    }
    lemma_one_order(a, sorted(t, key), key);
}

/// A way to put items in order: the text that each is ordered by.
pub trait Order<T: Plain> {
    spec fn key(v: T::V) -> Seq<char>;

    fn key_text(item: &T) -> (r: String)
        ensures
            r@ == Self::key(item.deep_view()),
    ;
}

/// The key of an order, as a function.
pub open spec fn key_of<T: Plain, O: Order<T>>() -> spec_fn(T::V) -> Seq<char> {
    |v: T::V| O::key(v)
}

/// Puts an item where it belongs in an ordered list.
fn place<T: Plain, O: Order<T>>(list: Vec<T>, item: T) -> (r: Vec<T>)
    ensures
        r.deep_view() == placed(list.deep_view(), item.deep_view(), key_of::<T, O>()),
{
    let mut list = list;
    let ghost whole = list.deep_view();
    let ghost x = item.deep_view();
    let ghost by_key = key_of::<T, O>();
    let key = O::key_text(&item);
    let mut n: usize = list.len();
    assert(whole.take(n as int) =~= whole);
    assert(whole.skip(n as int) =~= Seq::empty());
    assert(placed(whole, x, by_key)
        =~= placed(whole.take(n as int), x, by_key) + whole.skip(n as int));
    while n > 0 && text::comes_before(&key, &O::key_text(&list[n - 1]))
        invariant
            n <= list.len(),
            list.deep_view() == whole,
            key@ == by_key(x),
            by_key == key_of::<T, O>(),
            placed(whole, x, by_key)
                == placed(whole.take(n as int), x, by_key) + whole.skip(n as int),
        decreases n,
    {
        proof {
            let front = whole.take(n as int);
            assert(front.drop_last() =~= whole.take(n - 1));
            assert(front.last() == list[n - 1].deep_view());
            assert(placed(front, x, by_key)
                == placed(front.drop_last(), x, by_key).push(front.last()));
            assert(placed(front.drop_last(), x, by_key).push(front.last()) + whole.skip(n as int)
                =~= placed(front.drop_last(), x, by_key) + whole.skip(n - 1));
        }
        n = n - 1;
    }
    proof {
        let front = whole.take(n as int);
        if n > 0 {
            assert(front.last() == list[n - 1].deep_view());
        }
        assert(placed(front, x, by_key) == front.push(x));
    }
    list.insert(n, item);
    assert(list.deep_view() =~= whole.take(n as int).push(x) + whole.skip(n as int));
    list
}

/// The items in order.
pub fn sort<T: Plain, O: Order<T>>(list: &Vec<T>) -> (r: Vec<T>)
    ensures
        r.deep_view() == sorted(list.deep_view(), key_of::<T, O>()),
{
    let mut r: Vec<T> = Vec::new();
    let mut i: usize = 0;
    assert(r.deep_view() =~= Seq::empty());
    assert(list.deep_view().take(0) =~= Seq::empty());
    while i < list.len()
        invariant
            i <= list.len(),
            r.deep_view() == sorted(list.deep_view().take(i as int), key_of::<T, O>()),
        decreases list.len() - i,
    {
        proof {
            let s = list.deep_view().take(i + 1);
            assert(s.drop_last() =~= list.deep_view().take(i as int));
            assert(s.last() == list.deep_view()[i as int]);
        }
        r = place::<T, O>(r, list[i].copy());
        i = i + 1;
    }
    assert(list.deep_view().take(i as int) =~= list.deep_view());
    r
}

} // verus!
