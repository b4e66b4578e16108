//! The alphabetical order of file names.

use vstd::prelude::*;

use crate::text::{chars, views};

verus! {

/// `a` does not come after `b`: at the first difference `a` has the smaller
/// character, or `a` is a prefix of `b`.
pub open spec fn ordered(a: Seq<char>, b: Seq<char>) -> bool
    decreases a.len(),
{
    if a.len() == 0 {
        true
    } else if b.len() == 0 {
        false
    } else if a[0] != b[0] {
        a[0] < b[0]
    } else {
        ordered(a.skip(1), b.skip(1))
    }
}

/// Of two names at least one does not come after the other.
pub proof fn ordered_total(a: Seq<char>, b: Seq<char>)
    ensures
        ordered(a, b) || ordered(b, a),
    decreases a.len(),
{
    if a.len() > 0 && b.len() > 0 && a[0] == b[0] {
        ordered_total(a.skip(1), b.skip(1));
    }
}

/// The order of names is transitive.
pub proof fn ordered_transitive(a: Seq<char>, b: Seq<char>, c: Seq<char>)
    requires
        ordered(a, b),
        ordered(b, c),
    ensures
        ordered(a, c),
    decreases a.len(),
{
    if a.len() > 0 && b.len() > 0 && c.len() > 0 && a[0] == b[0] && b[0] == c[0] {
        ordered_transitive(a.skip(1), b.skip(1), c.skip(1));
    }
}

/// Two names of which neither comes after the other are the same name.
pub proof fn ordered_antisymmetric(a: Seq<char>, b: Seq<char>)
    requires
        ordered(a, b),
        ordered(b, a),
    ensures
        a == b,
    decreases a.len(),
{
    if a.len() > 0 && b.len() > 0 {
        ordered_antisymmetric(a.skip(1), b.skip(1));
        assert(a =~= seq![a[0]] + a.skip(1));
        assert(b =~= seq![b[0]] + b.skip(1));
    } else {
        assert(a =~= b);
    }
}

/// True when `a` does not come after `b`.
pub fn in_order(a: &str, b: &str) -> (yes: bool)
    ensures
        yes == ordered(a@, b@),
{
    let x = chars(a);
    let y = chars(b);
    let mut i: usize = 0;
    assert(x@.skip(0) =~= x@);
    assert(y@.skip(0) =~= y@);
    while i < x.len()
        invariant
            i <= x@.len(),
            i <= y@.len(),
            x@ == a@,
            y@ == b@,
            ordered(a@, b@) == ordered(x@.skip(i as int), y@.skip(i as int)),
        decreases x@.len() - i,
    {
        if i >= y.len() {
            return false;
        }
        if x[i] != y[i] {
            return x[i] < y[i];
        }
        assert(x@.skip(i as int).skip(1) =~= x@.skip(i + 1));
        assert(y@.skip(i as int).skip(1) =~= y@.skip(i + 1));
        i = i + 1;
    }
    true
}

/// True when the names stand in order.
pub open spec fn sorted(list: Seq<Seq<char>>) -> bool {
    forall|i: int, j: int|
        0 <= i <= j < list.len() ==> ordered(#[trigger] list[i], #[trigger] list[j])
}

proof fn ordered_reflexive(a: Seq<char>)
    ensures
        ordered(a, a),
{
    ordered_total(a, a);
}

/// `r` is what sorting makes of `list`: the same names in order.
pub open spec fn sorts(list: Seq<Seq<char>>, r: Seq<Seq<char>>) -> bool {
    sorted(r) && r.to_multiset() == list.to_multiset()
}

/// The names in order.
pub fn sort(list: Vec<String>) -> (r: Vec<String>)
    ensures
        sorts(views(list@), views(r@)),
{
    let mut r: Vec<String> = Vec::new();
    let mut i: usize = 0;
    assert(views(list@).take(0) =~= views(r@));
    while i < list.len()
        invariant
            i <= list@.len(),
            r@.len() == i,
            sorted(views(r@)),
            views(r@).to_multiset() == views(list@).take(i as int).to_multiset(),
        decreases list@.len() - i,
    {
        let name = list[i].clone();
        let mut at: usize = r.len();
        while at > 0 && !in_order(r[at - 1].as_str(), name.as_str())
            invariant
                at <= r@.len(),
                forall|k: int| at <= k < r@.len() ==> !ordered((#[trigger] r@[k])@, name@),
            decreases at,
        {
            at = at - 1;
        }
        let ghost before = views(r@);
        let ghost added = name@;
        proof {
            assert forall|k: int| 0 <= k < at implies ordered(#[trigger] before[k], added) by {
                assert(ordered(before[at - 1], added));
                assert(ordered(before[k], before[at - 1]));
                ordered_transitive(before[k], before[at - 1], added);
            }
            assert forall|k: int| at <= k < before.len() implies ordered(
                added,
                #[trigger] before[k],
            ) by {
                assert(!ordered(r@[k]@, added));
                ordered_total(before[k], added);
            }
        }
        r.insert(at, name);
        proof {
            assert(views(r@) =~= before.insert(at as int, added));
            ordered_reflexive(added);
            assert forall|a: int, b: int| 0 <= a <= b < views(r@).len() implies ordered(
                #[trigger] views(r@)[a],
                #[trigger] views(r@)[b],
            ) by {
                let pa = if a < at { a } else { a - 1 };
                let pb = if b < at { b } else { b - 1 };
                if a != at && b != at {
                    assert(ordered(before[pa], before[pb]));
                } else if a == at && b != at {
                    assert(ordered(added, before[pb]));
                } else if b == at && a != at {
                    assert(ordered(before[pa], added));
                }
            }
            before.to_multiset_ensures();
            let grown = before.insert(at as int, added);
            grown.to_multiset_ensures();
            assert(grown.remove(at as int) =~= before);
            assert(grown[at as int] == added);
            assert(grown.contains(added));
            assert(grown.to_multiset() =~= before.to_multiset().insert(added));
            views(list@).take(i as int).to_multiset_ensures();
            assert(views(list@).take(i + 1) =~= views(list@).take(i as int).push(added));
        }
        i = i + 1;
    }
    assert(views(list@).take(list@.len() as int) =~= views(list@));
    r
}

/// Sorting has one result only.
pub proof fn sorting_is_unique(list: Seq<Seq<char>>, a: Seq<Seq<char>>, b: Seq<Seq<char>>)
    requires
        sorts(list, a),
        sorts(list, b),
    ensures
        a == b,
{
    sorted_lists_agree(a, b);
}

proof fn sorted_lists_agree(a: Seq<Seq<char>>, b: Seq<Seq<char>>)
    requires
        sorted(a),
        sorted(b),
        a.to_multiset() == b.to_multiset(),
    ensures
        a == b,
    decreases a.len(),
{
    a.to_multiset_ensures();
    b.to_multiset_ensures();
    assert(a.len() == b.len());
    if a.len() == 0 {
        assert(a =~= b);
    } else {
        assert(a.contains(a[0]) && b.contains(b[0]));
        assert(a.to_multiset().count(a[0]) > 0);
        assert(b.contains(a[0]));
        assert(b.to_multiset().count(b[0]) > 0);
        assert(a.contains(b[0]));
        let i = choose|i: int| 0 <= i < b.len() && b[i] == a[0];
        let k = choose|k: int| 0 <= k < a.len() && a[k] == b[0];
        assert(ordered(b[0], b[i]));
        assert(ordered(a[0], a[k]));
        ordered_antisymmetric(a[0], b[0]);
        assert(a.remove(0) =~= a.skip(1));
        assert(b.remove(0) =~= b.skip(1));
        assert(a.skip(1).to_multiset() =~= a.to_multiset().remove(a[0]));
        assert(b.skip(1).to_multiset() =~= b.to_multiset().remove(b[0]));
        sorted_lists_agree(a.skip(1), b.skip(1));
        assert(a =~= seq![a[0]] + a.skip(1));
        assert(b =~= seq![b[0]] + b.skip(1));
    }
}

} // verus!
