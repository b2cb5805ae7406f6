//! Entries kept as a set in the order of their names: a sequence in which the
//! entries rise strictly, so that none occurs twice. Entries of one name are
//! told apart by what else they hold, so that a set is the same whatever
//! order its entries came in.

use crate::order::{name_lt, Rank};
use crate::text::views;
use vstd::prelude::*;

verus! {

/// A value that a listing shows under a name.
pub trait Entry: Sized {
    /// The name it is listed under.
    spec fn name(self) -> Seq<char>;

    /// How it stands to another entry in the order of a set: by the names
    /// first, and among entries of one name by what else they hold.
    spec fn versus(self, other: Self) -> Rank;

    /// The order of a set is a strict total order that goes by the names
    /// first: two entries are the same only when they are equal, the rank
    /// the other way round is the opposite one, before carries over a
    /// middle entry, and the entry with the earlier name is before.
    proof fn lemma_versus(a: Self, b: Self, c: Self)
        ensures
            a.versus(b) == Rank::Same <==> a == b,
            a.versus(b) == Rank::Before <==> b.versus(a) == Rank::After,
            a.versus(b) == Rank::Before && b.versus(c) == Rank::Before ==> a.versus(c)
                == Rank::Before,
            name_lt(a.name(), b.name()) ==> a.versus(b) == Rank::Before,
    ;
}

/// An entry that can be read and ordered.
pub trait Named: View where <Self as View>::V: Entry {
    /// The name of the entry.
    fn label(&self) -> (n: &str)
        ensures
            n@ == self@.name(),
    ;

    /// How the entry stands to another in the order of a set.
    fn stands_to(&self, other: &Self) -> (r: Rank)
        ensures
            r == self@.versus(other@),
    ;
}

/// The entries rise strictly from each to the next.
pub open spec fn ascending<A: Entry>(s: Seq<A>) -> bool {
    forall|i: int, j: int|
        #![trigger s[i], s[j]]
        0 <= i < j < s.len() ==> s[i].versus(s[j]) == Rank::Before
}

/// Some entry of `s` goes by the name `n`.
pub open spec fn has_name<A: Entry>(s: Seq<A>, n: Seq<char>) -> bool {
    exists|i: int| 0 <= i < s.len() && #[trigger] s[i].name() == n
}

/// How many entries of `s` are before `a`.
pub open spec fn slot<A: Entry>(s: Seq<A>, a: A) -> int
    decreases s.len(),
{
    if s.len() == 0 {
        0
    } else {
        slot(s.drop_last(), a) + if s.last().versus(a) == Rank::Before {
            1int
        } else {
            0int
        }
    }
}

/// `s` with `a` added in its place; `s` itself where it already holds `a`.
pub open spec fn put<A: Entry>(s: Seq<A>, a: A) -> Seq<A> {
    if s.contains(a) {
        s
    } else {
        s.insert(slot(s, a), a)
    }
}

/// All but the last entry of a rising row rise too.
proof fn lemma_ascending_drop_last<A: Entry>(s: Seq<A>)
    requires
        ascending(s),
        s.len() > 0,
    ensures
        ascending(s.drop_last()),
{
    let t = s.drop_last();
    assert forall|i: int, j: int| #![trigger t[i], t[j]] 0 <= i < j < t.len() implies t[i].versus(
        t[j],
    ) == Rank::Before by {
        assert(t[i] == s[i] && t[j] == s[j]);
    }
}

/// In a row that rises, the place of an entry is where the entries before
/// it end: every entry below the place is before it, every entry from the
/// place on is not.
pub proof fn lemma_slot_splits<A: Entry>(s: Seq<A>, a: A)
    requires
        ascending(s),
    ensures
        0 <= slot(s, a) <= s.len(),
        forall|k: int| 0 <= k < slot(s, a) ==> (#[trigger] s[k]).versus(a) == Rank::Before,
        forall|k: int| slot(s, a) <= k < s.len() ==> (#[trigger] s[k]).versus(a) != Rank::Before,
    decreases s.len(),
{
    if s.len() > 0 {
        let t = s.drop_last();
        let last = s.len() - 1;
        lemma_ascending_drop_last(s);
        lemma_slot_splits(t, a);
        assert forall|k: int| 0 <= k < t.len() implies #[trigger] t[k] == s[k] by {}
        if s[last].versus(a) == Rank::Before {
            assert forall|k: int| 0 <= k < s.len() implies (#[trigger] s[k]).versus(a)
                == Rank::Before by {
                if k < last {
                    assert(s[k].versus(s[last]) == Rank::Before);
                    A::lemma_versus(s[k], s[last], a);
                }
            }
            if slot(t, a) < t.len() {
                assert(t[slot(t, a)] == s[slot(t, a)]);
            }
        } else {
            assert forall|k: int| 0 <= k < slot(s, a) implies (#[trigger] s[k]).versus(a)
                == Rank::Before by {
                assert(t[k] == s[k]);
            }
            assert forall|k: int| slot(s, a) <= k < s.len() implies (#[trigger] s[k]).versus(a)
                != Rank::Before by {
                if k < last {
                    assert(t[k] == s[k]);
                }
            }
        }
    }
}

/// A place that parts the entries before `a` from those after it is the
/// place of `a`, and the row does not hold `a`.
pub proof fn lemma_slot_found<A: Entry>(s: Seq<A>, a: A, i: int)
    requires
        ascending(s),
        0 <= i <= s.len(),
        forall|k: int| 0 <= k < i ==> (#[trigger] s[k]).versus(a) == Rank::Before,
        i < s.len() ==> a.versus(s[i]) == Rank::Before,
    ensures
        slot(s, a) == i,
        !s.contains(a),
{
    lemma_slot_splits(s, a);
    let p = slot(s, a);
    if p < i {
        assert(s[p].versus(a) == Rank::Before);
    }
    if i < p {
        assert(s[i].versus(a) == Rank::Before);
        A::lemma_versus(a, s[i], a);
    }
    if s.contains(a) {
        let k = choose|k: int| 0 <= k < s.len() && s[k] == a;
        A::lemma_versus(a, a, a);
        if k < i {
            assert(s[k].versus(a) == Rank::Before);
        } else if k > i {
            assert(s[i].versus(s[k]) == Rank::Before);
            A::lemma_versus(a, s[i], a);
        }
    }
}

/// Adding an entry keeps a rising row rising, keeps every entry that was
/// there, and adds the new one and nothing else.
pub proof fn lemma_put<A: Entry>(s: Seq<A>, a: A)
    requires
        ascending(s),
    ensures
        ascending(put(s, a)),
        forall|x: A| put(s, a).contains(x) <==> s.contains(x) || x == a,
        forall|n: Seq<char>| has_name(put(s, a), n) <==> has_name(s, n) || n == a.name(),
        put(s, a).len() == s.len() + if s.contains(a) {
            0int
        } else {
            1int
        },
{
    let r = put(s, a);
    if s.contains(a) {
        let k = choose|k: int| 0 <= k < s.len() && s[k] == a;
        assert(s[k].name() == a.name());
    } else {
        lemma_slot_splits(s, a);
        let p = slot(s, a);
        assert(r[p] == a);
        assert forall|k: int| p <= k < s.len() implies a.versus(#[trigger] s[k])
            == Rank::Before by {
            A::lemma_versus(a, s[k], a);
            A::lemma_versus(s[k], a, a);
            assert(s.contains(s[k]));
        }
        assert forall|i: int, j: int| #![trigger r[i], r[j]] 0 <= i < j < r.len() implies r[i].versus(
            r[j],
        ) == Rank::Before by {
            if i < p {
                assert(r[i] == s[i]);
            } else if i > p {
                assert(r[i] == s[i - 1]);
            }
            if j < p {
                assert(r[j] == s[j]);
            } else if j > p {
                assert(r[j] == s[j - 1]);
            }
        }
        assert forall|x: A| r.contains(x) <==> s.contains(x) || x == a by {
            if r.contains(x) {
                let k = choose|k: int| 0 <= k < r.len() && r[k] == x;
                if k < p {
                    assert(r[k] == s[k]);
                } else if k > p {
                    assert(r[k] == s[k - 1]);
                }
            }
            if s.contains(x) {
                let k = choose|k: int| 0 <= k < s.len() && s[k] == x;
                if k < p {
                    assert(r[k] == s[k]);
                } else {
                    assert(r[k + 1] == s[k]);
                }
            }
        }
        assert forall|n: Seq<char>| has_name(r, n) <==> has_name(s, n) || n == a.name() by {
            if has_name(r, n) {
                let k = choose|k: int| 0 <= k < r.len() && #[trigger] r[k].name() == n;
                if k < p {
                    assert(r[k] == s[k]);
                } else if k > p {
                    assert(r[k] == s[k - 1]);
                }
            }
            if has_name(s, n) {
                let k = choose|k: int| 0 <= k < s.len() && #[trigger] s[k].name() == n;
                if k < p {
                    assert(r[k] == s[k]);
                } else {
                    assert(r[k + 1] == s[k]);
                }
            }
        }
    }
}

/// Adds `item` to the rising row `v` at its place. Where the row already
/// holds an entry equal to it, the row stays as it is and `item` is dropped.
/// Tells whether the item went in.
pub fn insert<T: Named>(v: &mut Vec<T>, item: T) -> (fresh: bool) where <T as View>::V: Entry
    requires
        ascending(views(old(v)@)),
    ensures
        views(final(v)@) == put(views(old(v)@), item@),
        ascending(views(final(v)@)),
        fresh == !views(old(v)@).contains(item@),
{
    let ghost s = views(v@);
    let ghost a = item@;
    let mut i: usize = 0;
    let mut found = false;
    while i < v.len() && !found
        invariant
            i <= v.len(),
            v@ == old(v)@,
            s == views(v@),
            ascending(s),
            a == item@,
            forall|k: int| 0 <= k < i ==> (#[trigger] s[k]).versus(a) == Rank::Before,
            found ==> i < v.len() && a.versus(s[i as int]) == Rank::Before,
        ensures
            found || i == v.len(),
        decreases v.len() - i + if found { 0int } else { 1int },
    {
        proof {
            <T::V as Entry>::lemma_versus(s[i as int], a, a);
            <T::V as Entry>::lemma_versus(a, s[i as int], a);
        }
        match v[i].stands_to(&item) {
            Rank::Before => {
                i = i + 1;
            },
            Rank::Same => {
                proof {
                    assert(s[i as int] == a);
                }
                return false;
            },
            Rank::After => {
                found = true;
            },
        }
    }
    proof {
        lemma_slot_found(s, a, i as int);
        lemma_put(s, a);
    }
    v.insert(i, item);
    proof {
        assert(views(v@) =~= s.insert(i as int, a));
    }
    true
}

/// In a rising row an earlier place means an earlier entry, and never a
/// later name.
pub proof fn lemma_ascending_places<A: Entry>(s: Seq<A>, i: int, j: int)
    requires
        ascending(s),
        0 <= i < s.len(),
        0 <= j < s.len(),
    ensures
        i < j <==> s[i].versus(s[j]) == Rank::Before,
        i == j <==> s[i] == s[j],
        i < j ==> !name_lt(s[j].name(), s[i].name()),
        name_lt(s[i].name(), s[j].name()) ==> i < j,
{
    A::lemma_versus(s[i], s[j], s[i]);
    A::lemma_versus(s[j], s[i], s[j]);
    if i < j {
        assert(s[i].versus(s[j]) == Rank::Before);
    }
    if j < i {
        assert(s[j].versus(s[i]) == Rank::Before);
    }
}

/// A set is its entries and nothing else: two rising rows that hold the same
/// entries are the same row.
pub proof fn lemma_ascending_unique<A: Entry>(s: Seq<A>, t: Seq<A>)
    requires
        ascending(s),
        ascending(t),
        forall|x: A| s.contains(x) <==> t.contains(x),
    ensures
        s == t,
    decreases s.len(),
{
    if s.len() == 0 {
        if t.len() > 0 {
            assert(t.contains(t[0]));
        }
        assert(s =~= t);
    } else {
        assert(s.contains(s.last()));
        let j = choose|j: int| 0 <= j < t.len() && t[j] == s.last();
        assert(t.contains(t.last()));
        let i = choose|i: int| 0 <= i < s.len() && s[i] == t.last();
        lemma_ascending_places(s, i, s.len() - 1);
        lemma_ascending_places(t, j, t.len() - 1);
        A::lemma_versus(s.last(), t.last(), s.last());
        assert(s.last() == t.last());
        let a = s.drop_last();
        let b = t.drop_last();
        assert forall|x: A| a.contains(x) <==> b.contains(x) by {
            if a.contains(x) {
                let k = choose|k: int| 0 <= k < a.len() && a[k] == x;
                assert(s[k] == x);
                assert(s.contains(x));
                let m = choose|m: int| 0 <= m < t.len() && t[m] == x;
                lemma_ascending_places(s, k, s.len() - 1);
                assert(b[m] == x);
            }
            if b.contains(x) {
                let k = choose|k: int| 0 <= k < b.len() && b[k] == x;
                assert(t[k] == x);
                assert(t.contains(x));
                let m = choose|m: int| 0 <= m < s.len() && s[m] == x;
                lemma_ascending_places(t, k, t.len() - 1);
                assert(a[m] == x);
            }
        }
        lemma_ascending_drop_last(s);
        lemma_ascending_drop_last(t);
        lemma_ascending_unique(a, b);
        assert(s =~= a.push(s.last()));
        assert(t =~= b.push(t.last()));
    }
}

} // verus!
