//! Putting lists in order.

use crate::text::chars_of;
use vstd::multiset::Multiset;
use vstd::prelude::*;

verus! {

/// Whether `a` comes before `b` in the order of their characters.
pub open spec fn text_before(a: Seq<char>, b: Seq<char>) -> bool
    decreases b.len(),
{
    if b.len() == 0 {
        false
    } else if a.len() == 0 {
        true
    } else if a[0] != b[0] {
        a[0] < b[0]
    } else {
        text_before(a.skip(1), b.skip(1))
    }
}

/// Of two texts, at most one comes before the other.
pub proof fn lemma_text_before_one_way(a: Seq<char>, b: Seq<char>)
    ensures
        !(text_before(a, b) && text_before(b, a)),
    decreases b.len(),
{
    if b.len() > 0 && a.len() > 0 && a[0] == b[0] {
        lemma_text_before_one_way(a.skip(1), b.skip(1));
    }
}

/// The order of texts carries over from pair to pair.
pub proof fn lemma_text_before_carries(a: Seq<char>, b: Seq<char>, c: Seq<char>)
    requires
        !text_before(b, a),
        !text_before(c, b),
    ensures
        !text_before(c, a),
    decreases a.len(),
{
    if a.len() > 0 && c.len() > 0 {
        if b.len() > 0 && a[0] == b[0] && b[0] == c[0] {
            lemma_text_before_carries(a.skip(1), b.skip(1), c.skip(1));
        }
    }
}

/// Texts that neither come before the other are the same.
pub proof fn lemma_text_before_or_same(a: Seq<char>, b: Seq<char>)
    requires
        !text_before(a, b),
        !text_before(b, a),
    ensures
        a == b,
    decreases a.len(),
{
    if a.len() > 0 && b.len() > 0 {
        lemma_text_before_or_same(a.skip(1), b.skip(1));
        assert forall|k: int| 0 <= k < a.len() implies a[k] == b[k] by {
            if k > 0 {
                assert(a[k] == a.skip(1)[k - 1]);
                assert(b[k] == b.skip(1)[k - 1]);
            }
        }
        assert(a.len() == a.skip(1).len() + 1);
        assert(a =~= b);
    } else {
        assert(a =~= b);
    }
}

/// Whether `a` comes before `b`.
pub fn comes_first(a: &str, b: &str) -> (r: bool)
    ensures
        r == text_before(a@, b@),
{
    let x = chars_of(a);
    let y = chars_of(b);
    let mut i: usize = 0;
    assert(x@.skip(0) =~= x@);
    assert(y@.skip(0) =~= y@);
    while i < x.len() && i < y.len()
        invariant
            i <= x@.len(),
            i <= y@.len(),
            text_before(a@, b@) == text_before(x@.skip(i as int), y@.skip(i as int)),
        decreases x@.len() - i,
    {
        assert(x@.skip(i as int)[0] == x@[i as int]);
        assert(y@.skip(i as int)[0] == y@[i as int]);
        if x[i] != y[i] {
            return x[i] < y[i];
        }
        assert(x@.skip(i as int).skip(1) =~= x@.skip(i as int + 1));
        assert(y@.skip(i as int).skip(1) =~= y@.skip(i as int + 1));
        i = i + 1;
    }
    i < y.len()
}

/// Things that have an order.
pub trait Ranked: View {
    /// Whether `a` comes before `b`.
    spec fn precedes(a: Self::V, b: Self::V) -> bool;

    /// The order is one: it goes one way, and it carries over.
    proof fn order_holds(a: Self::V, b: Self::V, c: Self::V)
        ensures
            !(Self::precedes(a, b) && Self::precedes(b, a)),
            !Self::precedes(b, a) && !Self::precedes(c, b) ==> !Self::precedes(c, a),
    ;

    fn comes_before(&self, other: &Self) -> (r: bool)
        ensures
            r == Self::precedes(self@, other@),
    ;
}

/// The views of a list's items.
pub open spec fn viewed<T: View>(s: Seq<T>) -> Seq<T::V> {
    s.map_values(|t: T| t@)
}

/// No item comes before one to its left.
pub open spec fn in_order<T: Ranked>(s: Seq<T::V>) -> bool {
    forall|i: int, j: int| 0 <= i < j < s.len() ==> !T::precedes(#[trigger] s[j], #[trigger] s[i])
}

/// Inserting into a sequence adds to its items.
proof fn lemma_insert_adds<A>(s: Seq<A>, i: int, a: A)
    requires
        0 <= i <= s.len(),
    ensures
        s.insert(i, a).to_multiset() == s.to_multiset().insert(a),
{
    let t = s.insert(i, a);
    assert(t.remove(i) =~= s);
    t.to_multiset_ensures();
    assert(t.to_multiset().count(a) > 0) by {
        assert(t[i] == a);
        assert(t.contains(a));
    }
    assert(t.to_multiset().remove(a).insert(a) =~= t.to_multiset());
}

/// Where an item belongs in a list that is in order: after everything that it
/// does not come before.
fn place_of<T: Ranked>(list: &Vec<T>, item: &T) -> (r: usize)
    requires
        in_order::<T>(viewed(list@)),
    ensures
        r <= list@.len(),
        in_order::<T>(viewed(list@).insert(r as int, item@)),
{
    let mut i: usize = 0;
    while i < list.len() && !item.comes_before(&list[i])
        invariant
            i <= list@.len(),
            forall|k: int| 0 <= k < i ==> !T::precedes(item@, #[trigger] viewed(list@)[k]),
        decreases list@.len() - i,
    {
        i = i + 1;
    }
    proof {
        let s = viewed(list@);
        let t = s.insert(i as int, item@);
        assert forall|a: int, b: int| 0 <= a < b < t.len() implies !T::precedes(
            #[trigger] t[b],
            #[trigger] t[a],
        ) by {
            if b == i {
                assert(t[a] == s[a]);
            } else if a == i {
                assert(t[b] == s[b - 1]);
                T::order_holds(item@, s[i as int], s[b - 1]);
                T::order_holds(s[i as int], s[b - 1], item@);
                if b - 1 > i {
                    assert(!T::precedes(s[b - 1], s[i as int]));
                }
            } else {
                let a0 = if a < i {
                    a
                } else {
                    a - 1
                };
                let b0 = if b < i {
                    b
                } else {
                    b - 1
                };
                assert(t[a] == s[a0] && t[b] == s[b0]);
            }
        }
    }
    i
}

/// Puts a list in order.
pub fn sort<T: Ranked>(list: Vec<T>) -> (r: Vec<T>)
    ensures
        in_order::<T>(viewed(r@)),
        viewed(r@).to_multiset() == viewed(list@).to_multiset(),
        r@.len() == list@.len(),
{
    let ghost all = viewed(list@);
    let mut rest = list;
    let mut out: Vec<T> = Vec::new();
    proof {
        assert(viewed(out@) =~= Seq::<T::V>::empty());
        viewed(out@).to_multiset_ensures();
        assert(viewed(out@).to_multiset() =~= Multiset::empty());
        assert(viewed(rest@).to_multiset().add(viewed(out@).to_multiset())
            =~= all.to_multiset());
    }
    while rest.len() > 0
        invariant
            in_order::<T>(viewed(out@)),
            viewed(rest@).to_multiset().add(viewed(out@).to_multiset()) == all.to_multiset(),
            rest@.len() + out@.len() == list@.len(),
        decreases rest@.len(),
    {
        let ghost before = viewed(rest@);
        let ghost placed = viewed(out@);
        let item = rest.pop().unwrap();
        let at = place_of(&out, &item);
        out.insert(at, item);
        proof {
            assert(viewed(rest@).push(item@) =~= before);
            viewed(rest@).to_multiset_ensures();
            assert(viewed(out@) =~= placed.insert(at as int, item@));
            lemma_insert_adds(placed, at as int, item@);
            assert(viewed(rest@).to_multiset().add(viewed(out@).to_multiset())
                =~= before.to_multiset().add(placed.to_multiset()));
        }
    }
    proof {
        assert(viewed(rest@) =~= Seq::<T::V>::empty());
        viewed(rest@).to_multiset_ensures();
        assert(viewed(rest@).to_multiset().add(viewed(out@).to_multiset()) =~= viewed(
            out@,
        ).to_multiset());
    }
    out
}

/// A list whose items all have different places can be put in order in one way
/// only.
pub proof fn law_there_is_one_order<T: Ranked>(a: Seq<T::V>, b: Seq<T::V>)
    requires
        in_order::<T>(a),
        in_order::<T>(b),
        a.to_multiset() == b.to_multiset(),
        forall|x: T::V, y: T::V|
            a.contains(x) && a.contains(y) && x != y ==> #[trigger] T::precedes(x, y)
                || T::precedes(y, x),
    ensures
        a == b,
    decreases a.len(),
{
    a.to_multiset_ensures();
    b.to_multiset_ensures();
    assert(a.len() == b.len());
    if a.len() == 0 {
        assert(a =~= b);
    } else {
        let x = a[0];
        let y = b[0];
        assert(a.contains(x));
        assert(b.contains(y));
        assert(a.to_multiset().count(x) > 0);
        assert(b.to_multiset().count(x) > 0);
        assert(b.contains(x));
        assert(b.to_multiset().count(y) > 0);
        assert(a.to_multiset().count(y) > 0);
        assert(a.contains(y));
        let i = choose|i: int| 0 <= i < a.len() && a[i] == y;
        let j = choose|j: int| 0 <= j < b.len() && b[j] == x;
        if x != y {
            assert(!T::precedes(a[i], a[0]));
            assert(!T::precedes(b[j], b[0]));
            assert(T::precedes(x, y) || T::precedes(y, x));
        }
        let a2 = a.remove(0);
        let b2 = b.remove(0);
        assert(a2.to_multiset() == b2.to_multiset());
        assert forall|p: T::V| #[trigger] a2.contains(p) implies a.contains(p) by {
            let k = choose|k: int| 0 <= k < a2.len() && a2[k] == p;
            assert(a[k + 1] == p);
        }
        assert(in_order::<T>(a2)) by {
            assert forall|p: int, q: int| 0 <= p < q < a2.len() implies !T::precedes(
                #[trigger] a2[q],
                #[trigger] a2[p],
            ) by {
                assert(a2[q] == a[q + 1] && a2[p] == a[p + 1]);
            }
        }
        assert(in_order::<T>(b2)) by {
            assert forall|p: int, q: int| 0 <= p < q < b2.len() implies !T::precedes(
                #[trigger] b2[q],
                #[trigger] b2[p],
            ) by {
                assert(b2[q] == b[q + 1] && b2[p] == b[p + 1]);
            }
        }
        law_there_is_one_order::<T>(a2, b2);
        assert(a =~= seq![x] + a2);
        assert(b =~= seq![y] + b2);
    }
}

} // verus!
