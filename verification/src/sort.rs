//! Stable sorting by a key.
use vstd::prelude::*;

verus! {

/// Items that are sorted by a key.
pub trait Ranked: Sized {
    type Key;

    /// The key of this item.
    spec fn key(&self) -> Self::Key;

    /// Whether items with key `a` go before those with key `b`.
    spec fn precedes(a: Self::Key, b: Self::Key) -> bool;

    /// Of two keys not both precede each other, and not preceding is transitive.
    proof fn order(a: Self::Key, b: Self::Key, c: Self::Key)
        ensures
            Self::precedes(a, b) ==> !Self::precedes(b, a),
            !Self::precedes(b, a) && !Self::precedes(c, b) ==> !Self::precedes(c, a),
    ;

    /// Whether this item goes before another.
    fn goes_before(&self, other: &Self) -> (r: bool)
        ensures
            r == Self::precedes(self.key(), other.key()),
    ;
}

/// Items in the order of their keys.
pub open spec fn in_order<T: Ranked>(s: Seq<T>) -> bool {
    forall|i: int, j: int|
        0 <= i < j < s.len() ==> !T::precedes((#[trigger] s[j]).key(), (#[trigger] s[i]).key())
}

/// The items with this key, in order.
pub open spec fn with_key<T: Ranked>(s: Seq<T>, key: T::Key) -> Seq<T> {
    s.filter(|x: T| x.key() == key)
}

/// There are no items with a key that none of them has.
pub proof fn lemma_none_with_key<T: Ranked>(s: Seq<T>, key: T::Key)
    requires
        forall|j: int| 0 <= j < s.len() ==> (#[trigger] s[j]).key() != key,
    ensures
        with_key(s, key) == Seq::<T>::empty(),
    decreases s.len(),
{
    reveal(Seq::filter);
    if s.len() > 0 {
        assert(s.last() == s[s.len() - 1]);
        assert forall|j: int| 0 <= j < s.drop_last().len() implies (
        #[trigger] s.drop_last()[j]).key() != key by {
            assert(s.drop_last()[j] == s[j]);
        }
        lemma_none_with_key(s.drop_last(), key);
    }
}

/// Two places with items of one key make two items with that key.
pub proof fn lemma_two_with_key<T: Ranked>(s: Seq<T>, i: int, j: int)
    requires
        0 <= i < j < s.len(),
        s[i].key() == s[j].key(),
    ensures
        with_key(s, s[i].key()).len() >= 2,
{
    let key = s[i].key();
    let p = |x: T| x.key() == key;
    let a = s.take(j);
    let b = s.skip(j);
    assert(s == a + b);
    Seq::filter_distributes_over_add(a, b, p);
    assert(a[i] == s[i] && b[0] == s[j]);
    a.lemma_filter_contains(p, i);
    b.lemma_filter_contains(p, 0);
}

/// Placing an item behind all that go before it puts it in front of the others of
/// its key and leaves those of other keys alone.
proof fn lemma_place<T: Ranked>(s: Seq<T>, at: int, item: T, key: T::Key)
    requires
        0 <= at <= s.len(),
        forall|j: int| 0 <= j < at ==> T::precedes((#[trigger] s[j]).key(), item.key()),
    ensures
        with_key(s.insert(at, item), key) == with_key(seq![item], key) + with_key(s, key),
{
    let p = |x: T| x.key() == key;
    let a = s.take(at);
    let b = s.skip(at);
    assert(s == a + b);
    assert(s.insert(at, item) == (a + seq![item]) + b);
    Seq::filter_distributes_over_add(a, b, p);
    Seq::filter_distributes_over_add(a + seq![item], b, p);
    Seq::filter_distributes_over_add(a, seq![item], p);
    if key == item.key() {
        assert forall|j: int| 0 <= j < a.len() implies (#[trigger] a[j]).key() != key by {
            assert(a[j] == s[j]);
            T::order(s[j].key(), key, key);
        }
        lemma_none_with_key(a, key);
    } else {
        lemma_none_with_key(seq![item], key);
    }
    assert(with_key(s.insert(at, item), key) =~= with_key(seq![item], key) + with_key(s, key));
}

proof fn lemma_place_in_order<T: Ranked>(s: Seq<T>, at: int, item: T)
    requires
        0 <= at <= s.len(),
        in_order(s),
        forall|j: int| 0 <= j < at ==> T::precedes((#[trigger] s[j]).key(), item.key()),
        at < s.len() ==> !T::precedes(s[at].key(), item.key()),
    ensures
        in_order(s.insert(at, item)),
{
    let t = s.insert(at, item);
    assert forall|i: int, j: int| 0 <= i < j < t.len() implies !T::precedes(
        (#[trigger] t[j]).key(),
        (#[trigger] t[i]).key(),
    ) by {
        if j == at {
            T::order(s[i].key(), item.key(), item.key());
        } else if i == at {
            let k = j - 1;
            if k > at {
                T::order(item.key(), s[at].key(), s[k].key());
            }
        }
    }
}

/// The items in the order of their keys; those of one key keep their order.
pub fn sort_stably<T: Ranked>(list: Vec<T>) -> (r: Vec<T>)
    ensures
        in_order(r@),
        r@.len() == list@.len(),
        forall|key: T::Key| #[trigger] with_key(r@, key) == with_key(list@, key),
{
    let ghost all = list@;
    let mut sorted: Vec<T> = Vec::new();
    let mut rest: Vec<T> = list;
    proof {
        assert forall|key: T::Key| #[trigger]
            with_key(all, key) == with_key(rest@, key) + with_key(sorted@, key) by {
            lemma_none_with_key(sorted@, key);
            assert(with_key(rest@, key) + Seq::<T>::empty() =~= with_key(all, key));
        }
    }
    while rest.len() > 0
        invariant
            rest@.len() + sorted@.len() == all.len(),
            in_order(sorted@),
            forall|key: T::Key| #[trigger]
                with_key(all, key) == with_key(rest@, key) + with_key(sorted@, key),
        decreases rest@.len(),
    {
        let ghost before = rest@;
        let ghost placed = sorted@;
        let item: T = rest.pop().unwrap();
        assert(before == rest@.push(item));
        let ghost moved = item;
        let mut at: usize = 0;
        while at < sorted.len() && sorted[at].goes_before(&item)
            invariant
                at <= sorted@.len(),
                forall|j: int|
                    0 <= j < at ==> T::precedes((#[trigger] sorted@[j]).key(), item.key()),
            decreases sorted@.len() - at,
        {
            at = at + 1;
        }
        sorted.insert(at, item);
        proof {
            assert(sorted@ == placed.insert(at as int, moved));
            lemma_place_in_order(placed, at as int, moved);
            assert forall|key: T::Key| #[trigger]
                with_key(all, key) == with_key(rest@, key) + with_key(sorted@, key) by {
                let p = |x: T| x.key() == key;
                lemma_place(placed, at as int, moved, key);
                assert(before == rest@ + seq![moved]);
                Seq::filter_distributes_over_add(rest@, seq![moved], p);
                assert(with_key(before, key) + with_key(placed, key) =~= with_key(rest@, key)
                    + with_key(sorted@, key));
            }
        }
    }
    proof {
        assert forall|key: T::Key| #[trigger] with_key(sorted@, key) == with_key(all, key) by {
            lemma_none_with_key(rest@, key);
            assert(with_key(all, key) =~= with_key(sorted@, key));
        }
    }
    sorted
}

proof fn lemma_filter_contains<T: Ranked>(s: Seq<T>, x: T)
    ensures
        with_key(s, x.key()).contains(x) <==> s.contains(x),
    decreases s.len(),
{
    reveal(Seq::filter);
    if s.len() > 0 {
        let t = s.drop_last();
        let f = with_key(t, x.key());
        let g = with_key(s, x.key());
        lemma_filter_contains(t, x);
        if t.contains(x) {
            let k = choose|k: int| 0 <= k < t.len() && t[k] == x;
            assert(s[k] == x);
            let j = choose|j: int| 0 <= j < f.len() && f[j] == x;
            assert(g[j] == x);
        }
        if s.last() == x {
            assert(s[s.len() - 1] == x);
            assert(g[f.len() as int] == x);
        }
        if g.contains(x) {
            let j = choose|j: int| 0 <= j < g.len() && g[j] == x;
            if j < f.len() {
                assert(f[j] == x);
            }
        }
        if s.contains(x) {
            let k = choose|k: int| 0 <= k < s.len() && s[k] == x;
            if k < t.len() {
                assert(t[k] == x);
            }
        }
    }
}

/// Lists with the same items of each key have the same items.
pub proof fn law_sorting_keeps_the_items<T: Ranked>(a: Seq<T>, b: Seq<T>, x: T)
    requires
        forall|key: T::Key| #[trigger] with_key(a, key) == with_key(b, key),
    ensures
        a.contains(x) <==> b.contains(x),
{
    lemma_filter_contains(a, x);
    lemma_filter_contains(b, x);
    assert(with_key(a, x.key()) == with_key(b, x.key()));
}

/// In a sorted list no item goes before one that stands ahead of it.
pub proof fn law_sorted_items_stand_in_order<T: Ranked>(s: Seq<T>, i: int, j: int)
    requires
        in_order(s),
        0 <= i < j < s.len(),
    ensures
        !T::precedes(s[j].key(), s[i].key()),
{
}

} // verus!
