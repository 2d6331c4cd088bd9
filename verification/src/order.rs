//! Lexicographic order on character sequences, and sorted sets of them.
use vstd::prelude::*;

use crate::text::{seq_equal, views};

verus! {

/// `a` comes before `b` in lexicographic order by character code. For strings this is the
/// order of `String`'s `Ord`, since UTF-8 keeps the order of code points.
pub open spec fn seq_less(a: Seq<char>, b: Seq<char>) -> bool
    decreases a.len(),
{
    if a.len() == 0 {
        b.len() > 0
    } else if b.len() == 0 {
        false
    } else if a[0] != b[0] {
        a[0] < b[0]
    } else {
        seq_less(a.drop_first(), b.drop_first())
    }
}

/// Every element comes before every later one: sorted, and no element twice.
pub open spec fn strictly_sorted(s: Seq<Seq<char>>) -> bool {
    forall|i: int, j: int| 0 <= i < j < s.len() ==> #[trigger] seq_less(s[i], s[j])
}

/// `list` holds the items as a set: each once, in lexicographic order.
pub open spec fn listed_once_in_order(list: Seq<Seq<char>>, items: Seq<Seq<char>>) -> bool {
    &&& strictly_sorted(list)
    &&& forall|u: Seq<char>| list.contains(u) <==> items.contains(u)
}

pub proof fn lemma_less_irreflexive(a: Seq<char>)
    ensures
        !seq_less(a, a),
    decreases a.len(),
{
    if a.len() > 0 {
        lemma_less_irreflexive(a.drop_first());
    }
}

pub proof fn lemma_less_transitive(a: Seq<char>, b: Seq<char>, c: Seq<char>)
    requires
        seq_less(a, b),
        seq_less(b, c),
    ensures
        seq_less(a, c),
    decreases a.len(),
{
    if a.len() > 0 && b.len() > 0 && c.len() > 0 {
        if a[0] == b[0] && b[0] == c[0] {
            lemma_less_transitive(a.drop_first(), b.drop_first(), c.drop_first());
        }
    }
}

pub proof fn lemma_less_total(a: Seq<char>, b: Seq<char>)
    requires
        a != b,
    ensures
        seq_less(a, b) || seq_less(b, a),
    decreases a.len(),
{
    if a.len() == 0 {
        assert(b.len() > 0) by {
            if b.len() == 0 {
                assert(a =~= b);
            }
        }
    } else if b.len() == 0 {
    } else if a[0] == b[0] {
        if a.drop_first() == b.drop_first() {
            assert(a =~= seq![a[0]] + a.drop_first());
            assert(b =~= seq![b[0]] + b.drop_first());
        }
        lemma_less_total(a.drop_first(), b.drop_first());
    }
}

pub proof fn lemma_less_asymmetric(a: Seq<char>, b: Seq<char>)
    requires
        seq_less(a, b),
    ensures
        !seq_less(b, a),
{
    if seq_less(b, a) {
        lemma_less_transitive(a, b, a);
        lemma_less_irreflexive(a);
    }
}

/// Whether `a` comes before `b`.
pub fn less_chars(a: &Vec<char>, b: &Vec<char>) -> (r: bool)
    ensures
        r == seq_less(a@, b@),
{
    let mut i: usize = 0;
    assert(a@.skip(0) =~= a@);
    assert(b@.skip(0) =~= b@);
    while i < a.len() && i < b.len() && a[i] == b[i]
        invariant
            i <= a.len(),
            i <= b.len(),
            seq_less(a@, b@) == seq_less(a@.skip(i as int), b@.skip(i as int)),
        decreases a.len() - i,
    {
        assert(a@.skip(i as int).drop_first() =~= a@.skip(i + 1));
        assert(b@.skip(i as int).drop_first() =~= b@.skip(i + 1));
        i = i + 1;
    }
    if i == a.len() {
        i < b.len()
    } else if i == b.len() {
        false
    } else {
        assert(a@.skip(i as int)[0] == a@[i as int]);
        assert(b@.skip(i as int)[0] == b@[i as int]);
        a[i] < b[i]
    }
}

/// Adds `x` to a strictly sorted list, where it is not there already.
pub fn insert_sorted(list: &mut Vec<Vec<char>>, x: Vec<char>)
    requires
        strictly_sorted(views(old(list)@)),
    ensures
        strictly_sorted(views(final(list)@)),
        forall|y: Seq<char>|
            views(final(list)@).contains(y) <==> (views(old(list)@).contains(y) || y == x@),
{
    let ghost before = views(list@);
    let mut j: usize = 0;
    while j < list.len() && less_chars(&list[j], &x)
        invariant
            j <= list.len(),
            before == views(list@),
            strictly_sorted(before),
            forall|k: int| 0 <= k < j ==> seq_less(#[trigger] before[k], x@),
        decreases list.len() - j,
    {
        assert(before[j as int] == list@[j as int]@);
        j = j + 1;
    }
    if j < list.len() && seq_equal(&list[j], &x) {
        assert(before[j as int] == x@);
        assert(forall|y: Seq<char>| before.contains(y) <==> (before.contains(y) || y == x@));
        return;
    }
    proof {
        if j < before.len() {
            assert(before[j as int] == list@[j as int]@);
            lemma_less_total(before[j as int], x@);
            assert(seq_less(x@, before[j as int]));
        }
        assert forall|k: int| j <= k < before.len() implies seq_less(x@, #[trigger] before[k]) by {
            if k > j {
                assert(seq_less(before[j as int], before[k]));
                lemma_less_transitive(x@, before[j as int], before[k]);
            }
        }
    }
    let ghost x_view = x@;
    list.insert(j, x);
    let ghost after = views(list@);
    assert(after =~= before.take(j as int).push(x_view) + before.skip(j as int));
    assert forall|a: int, b: int| 0 <= a < b < after.len() implies #[trigger] seq_less(
        after[a],
        after[b],
    ) by {
        if b < j {
            assert(after[a] == before[a] && after[b] == before[b]);
        } else if b == j {
            assert(after[a] == before[a]);
        } else if a < j {
            assert(after[a] == before[a] && after[b] == before[b - 1]);
            lemma_less_transitive(before[a], x_view, before[b - 1]);
        } else if a == j {
            assert(after[b] == before[b - 1]);
        } else {
            assert(after[a] == before[a - 1] && after[b] == before[b - 1]);
        }
    }
    assert forall|y: Seq<char>| after.contains(y) <==> (before.contains(y) || y == x_view) by {
        if after.contains(y) {
            let k = choose|k: int| 0 <= k < after.len() && after[k] == y;
            if k < j {
                assert(before[k] == y);
            } else if k > j {
                assert(before[k - 1] == y);
            }
        }
        if before.contains(y) {
            let k = choose|k: int| 0 <= k < before.len() && before[k] == y;
            if k < j {
                assert(after[k] == y);
            } else {
                assert(after[k + 1] == y);
            }
        }
        if y == x_view {
            assert(after[j as int] == y);
        }
    }
}

} // verus!

verus! {

proof fn lemma_sorted_tail(a: Seq<Seq<char>>)
    requires
        strictly_sorted(a),
        a.len() > 0,
    ensures
        strictly_sorted(a.drop_first()),
        forall|u: Seq<char>| a.drop_first().contains(u) <==> (a.contains(u) && u != a[0]),
{
    let t = a.drop_first();
    assert forall|i: int, j: int| 0 <= i < j < t.len() implies #[trigger] seq_less(t[i], t[j]) by {
        assert(t[i] == a[i + 1] && t[j] == a[j + 1]);
    }
    assert forall|u: Seq<char>| t.contains(u) <==> (a.contains(u) && u != a[0]) by {
        if t.contains(u) {
            let k = choose|k: int| 0 <= k < t.len() && t[k] == u;
            assert(a[k + 1] == u);
            assert(seq_less(a[0], a[k + 1]));
            lemma_less_irreflexive(a[0]);
        }
        if a.contains(u) && u != a[0] {
            let k = choose|k: int| 0 <= k < a.len() && a[k] == u;
            assert(k > 0);
            assert(t[k - 1] == u);
        }
    }
}

/// Two strictly sorted lists with the same elements are the same list.
pub proof fn sorted_lists_with_same_elements_are_equal(a: Seq<Seq<char>>, b: Seq<Seq<char>>)
    requires
        strictly_sorted(a),
        strictly_sorted(b),
        forall|u: Seq<char>| a.contains(u) <==> b.contains(u),
    ensures
        a == b,
    decreases a.len(),
{
    if a.len() == 0 {
        if b.len() > 0 {
            assert(b.contains(b[0]));
        }
        assert(a =~= b);
    } else {
        assert(a.contains(a[0]));
        assert(b.len() > 0);
        assert(b.contains(b[0]));
        if a[0] != b[0] {
            let j = choose|j: int| 0 <= j < b.len() && b[j] == a[0];
            let k = choose|k: int| 0 <= k < a.len() && a[k] == b[0];
            assert(j > 0 && k > 0);
            assert(seq_less(b[0], b[j]));
            assert(seq_less(a[0], a[k]));
            lemma_less_asymmetric(a[0], b[0]);
        }
        assert(a[0] == b[0]);
        lemma_sorted_tail(a);
        lemma_sorted_tail(b);
        assert forall|u: Seq<char>| a.drop_first().contains(u) <==> b.drop_first().contains(u) by {
            assert(a.contains(u) <==> b.contains(u));
        }
        sorted_lists_with_same_elements_are_equal(a.drop_first(), b.drop_first());
        assert(a =~= seq![a[0]] + a.drop_first());
        assert(b =~= seq![b[0]] + b.drop_first());
    }
}

} // verus!
