//! The order of texts, and sorting by it.

use crate::text::chars_of;
use vstd::prelude::*;
use vstd::relations::{sorted_by, total_ordering};
use vstd::seq_lib::{lemma_sorted_unique, to_multiset_build, to_multiset_insert};

verus! {

/// Whether `a` comes no later than `b`, judged from position `i` on: at the
/// first position where they differ the smaller character decides, and a text
/// that ends there comes first.
pub open spec fn leq_from(a: Seq<char>, b: Seq<char>, i: int) -> bool
    decreases a.len() - i,
{
    if i < 0 || i >= a.len() {
        true
    } else if i >= b.len() {
        false
    } else if a[i] != b[i] {
        (a[i] as int) < (b[i] as int)
    } else {
        leq_from(a, b, i + 1)
    }
}

/// The lexicographic order of texts by the code points of their characters.
pub open spec fn text_leq(a: Seq<char>, b: Seq<char>) -> bool {
    leq_from(a, b, 0)
}

/// `text_leq` as a relation.
pub open spec fn text_order() -> spec_fn(Seq<char>, Seq<char>) -> bool {
    |a: Seq<char>, b: Seq<char>| text_leq(a, b)
}

proof fn lemma_leq_reflexive(a: Seq<char>, i: int)
    requires
        0 <= i,
    ensures
        leq_from(a, a, i),
    decreases a.len() - i,
{
    if i < a.len() {
        lemma_leq_reflexive(a, i + 1);
    }
}

proof fn lemma_leq_connected(a: Seq<char>, b: Seq<char>, i: int)
    requires
        0 <= i,
    ensures
        leq_from(a, b, i) || leq_from(b, a, i),
    decreases a.len() - i,
{
    if i < a.len() && i < b.len() {
        if a[i] == b[i] {
            lemma_leq_connected(a, b, i + 1);
        }
    }
}

proof fn lemma_leq_antisymmetric(a: Seq<char>, b: Seq<char>, i: int)
    requires
        0 <= i <= a.len(),
        i <= b.len(),
        leq_from(a, b, i),
        leq_from(b, a, i),
    ensures
        a.len() == b.len(),
        forall|k: int| i <= k < a.len() ==> a[k] == b[k],
    decreases a.len() - i,
{
    if i < a.len() {
        lemma_leq_antisymmetric(a, b, i + 1);
    }
}

proof fn lemma_leq_transitive(a: Seq<char>, b: Seq<char>, c: Seq<char>, i: int)
    requires
        0 <= i,
        leq_from(a, b, i),
        leq_from(b, c, i),
    ensures
        leq_from(a, c, i),
    decreases a.len() - i,
{
    if i < a.len() && a[i] == b[i] && b[i] == c[i] {
        lemma_leq_transitive(a, b, c, i + 1);
    }
}

/// The order of texts is total: any two texts compare, and only equal texts
/// compare both ways.
pub proof fn lemma_text_order_total()
    ensures
        total_ordering(text_order()),
{
    let r = text_order();
    assert forall|x: Seq<char>| #[trigger] r(x, x) by {
        lemma_leq_reflexive(x, 0);
    }
    assert forall|x: Seq<char>, y: Seq<char>| #[trigger] r(x, y) && #[trigger] r(y, x) implies x
        == y by {
        lemma_leq_antisymmetric(x, y, 0);
        assert(x =~= y);
    }
    assert forall|x: Seq<char>, y: Seq<char>, z: Seq<char>| #[trigger]
        r(x, y) && #[trigger] r(y, z) implies r(x, z) by {
        lemma_leq_transitive(x, y, z, 0);
    }
    assert forall|x: Seq<char>, y: Seq<char>| #[trigger] r(x, y) || #[trigger] r(y, x) by {
        lemma_leq_connected(x, y, 0);
    }
}

/// Sorting texts gives the same texts, each as often as before, in
/// ascending order, and there is one such sequence only.
pub proof fn lemma_sorted_texts(items: Seq<Seq<char>>, other: Seq<Seq<char>>)
    ensures
        sorted_by(items.sort_by(text_order()), text_order()),
        items.sort_by(text_order()).to_multiset() == items.to_multiset(),
        sorted_by(other, text_order()) && other.to_multiset() == items.to_multiset() ==> other
            == items.sort_by(text_order()),
{
    lemma_text_order_total();
    items.lemma_sort_by_ensures(text_order());
    if sorted_by(other, text_order()) && other.to_multiset() == items.to_multiset() {
        lemma_sorted_unique(other, items.sort_by(text_order()), text_order());
    }
}

fn code_point(c: char) -> (code: u32)
    ensures
        code as int == c as int,
{
    c as u32
}

/// Tells whether `a` comes no later than `b` in the order of texts.
pub fn text_le(a: &str, b: &str) -> (le: bool)
    ensures
        le == text_leq(a@, b@),
{
    let x = chars_of(a);
    let y = chars_of(b);
    let mut i: usize = 0;
    while i < x.len() && i < y.len() && x[i] == y[i]
        invariant
            i <= x.len(),
            i <= y.len(),
            x@ == a@,
            y@ == b@,
            leq_from(a@, b@, i as int) == text_leq(a@, b@),
        decreases x.len() - i,
    {
        i += 1;
    }
    if i >= x.len() {
        true
    } else if i >= y.len() {
        false
    } else {
        code_point(x[i]) < code_point(y[i])
    }
}

/// The texts of `items` in ascending order.
pub fn sort_texts(items: &Vec<String>) -> (sorted: Vec<String>)
    ensures
        sorted.deep_view() == items.deep_view().sort_by(text_order()),
{
    let ghost all = items.deep_view();
    let mut sorted: Vec<String> = Vec::new();
    let mut n: usize = 0;
    proof {
        assert(all.subrange(0, 0) =~= Seq::<Seq<char>>::empty());
        assert(sorted.deep_view() =~= Seq::<Seq<char>>::empty());
    }
    while n < items.len()
        invariant
            n <= items.len(),
            all == items.deep_view(),
            sorted.len() == n,
            sorted_by(sorted.deep_view(), text_order()),
            sorted.deep_view().to_multiset() == all.subrange(0, n as int).to_multiset(),
        decreases items.len() - n,
    {
        let item = items[n].clone();
        let mut at: usize = sorted.len();
        while at > 0 && !text_le(sorted[at - 1].as_str(), item.as_str())
            invariant
                at <= sorted.len(),
                forall|k: int| at <= k < sorted.len() ==> !text_leq(sorted.deep_view()[k], item@),
            decreases at,
        {
            at -= 1;
        }
        let ghost before = sorted.deep_view();
        sorted.insert(at, item);
        proof {
            let after = sorted.deep_view();
            assert(after =~= before.insert(at as int, item@));
            lemma_text_order_total();
            assert forall|i: int, j: int| 0 <= i < j < after.len() implies #[trigger] text_order()(
                after[i],
                after[j],
            ) by {
                if j == at {
                    assert(after[i] == before[i]);
                    if i < at - 1 {
                        assert(text_order()(before[i], before[at - 1]));
                    }
                    assert(text_order()(before[at - 1], item@));
                } else if i == at {
                    assert(after[j] == before[j - 1]);
                    assert(!text_leq(before[j - 1], item@));
                    assert(text_order()(before[j - 1], item@) || text_order()(item@, before[j - 1]));
                } else {
                    let p = if i < at { i } else { i - 1 };
                    let q = if j < at { j } else { j - 1 };
                    assert(after[i] == before[p]);
                    assert(after[j] == before[q]);
                    assert(text_order()(before[p], before[q]));
                }
            }
            to_multiset_insert(before, at as int, item@);
            let seen = all.subrange(0, n as int + 1);
            assert(seen =~= all.subrange(0, n as int).push(item@));
            to_multiset_build(all.subrange(0, n as int), item@);
        }
        n += 1;
    }
    proof {
        assert(all.subrange(0, n as int) =~= all);
        lemma_text_order_total();
        all.lemma_sort_by_ensures(text_order());
        lemma_sorted_unique(sorted.deep_view(), all.sort_by(text_order()), text_order());
    }
    sorted
}

} // verus!
