//! The order of texts, sorting by it, and joining texts with a separator.

use crate::text::{chars_of, append_text, views_of, Text};
use vstd::prelude::*;
use vstd::relations::{sorted_by, total_ordering};
use vstd::seq_lib::lemma_sorted_unique;

verus! {

/// Whether `a` comes before `b` or equals it, character by character: the
/// first character in which they differ decides, and a text comes before
/// every text that it begins.
pub open spec fn text_le(a: Text, b: Text) -> bool
    decreases a.len(),
{
    if a.len() == 0 {
        true
    } else if b.len() == 0 {
        false
    } else if a[0] != b[0] {
        a[0] < b[0]
    } else {
        text_le(a.drop_first(), b.drop_first())
    }
}

/// The order of texts as a relation.
pub open spec fn text_order() -> spec_fn(Text, Text) -> bool {
    |a: Text, b: Text| text_le(a, b)
}

/// The texts of `s` in ascending order.
pub open spec fn sorted_texts(s: Seq<Text>) -> Seq<Text> {
    s.sort_by(text_order())
}

proof fn lemma_text_le_reflexive(a: Text)
    ensures
        text_le(a, a),
    decreases a.len(),
{
    if a.len() > 0 {
        lemma_text_le_reflexive(a.drop_first());
    }
}

proof fn lemma_text_le_antisymmetric(a: Text, b: Text)
    requires
        text_le(a, b),
        text_le(b, a),
    ensures
        a == b,
    decreases a.len(),
{
    if a.len() == 0 {
        assert(a =~= b);
    } else {
        lemma_text_le_antisymmetric(a.drop_first(), b.drop_first());
        assert(a =~= seq![a[0]] + a.drop_first());
        assert(b =~= seq![b[0]] + b.drop_first());
    }
}

proof fn lemma_text_le_transitive(a: Text, b: Text, c: Text)
    requires
        text_le(a, b),
        text_le(b, c),
    ensures
        text_le(a, c),
    decreases a.len(),
{
    if a.len() > 0 && a[0] == b[0] && b[0] == c[0] {
        lemma_text_le_transitive(a.drop_first(), b.drop_first(), c.drop_first());
    }
}

proof fn lemma_text_le_connected(a: Text, b: Text)
    ensures
        text_le(a, b) || text_le(b, a),
    decreases a.len(),
{
    if a.len() > 0 && b.len() > 0 && a[0] == b[0] {
        lemma_text_le_connected(a.drop_first(), b.drop_first());
    }
}

/// The order of texts is total: any two texts compare, and only equal texts
/// compare both ways.
pub proof fn lemma_text_order_total()
    ensures
        total_ordering(text_order()),
{
    let r = text_order();
    assert forall|x: Text| #[trigger] r(x, x) by {
        lemma_text_le_reflexive(x);
    }
    assert forall|x: Text, y: Text| #[trigger] r(x, y) && #[trigger] r(y, x) implies x == y by {
        lemma_text_le_antisymmetric(x, y);
    }
    assert forall|x: Text, y: Text, z: Text| #[trigger] r(x, y) && #[trigger] r(y, z) implies r(
        x,
        z,
    ) by {
        lemma_text_le_transitive(x, y, z);
    }
    assert forall|x: Text, y: Text| #[trigger] r(x, y) || #[trigger] r(y, x) by {
        lemma_text_le_connected(x, y);
    }
}

/// Whether `x` comes before `y` or equals it.
pub fn chars_le(x: &Vec<char>, y: &Vec<char>) -> (r: bool)
    ensures
        r == text_le(x@, y@),
{
    let mut i: usize = 0;
    assert(x@.skip(0) =~= x@);
    assert(y@.skip(0) =~= y@);
    loop
        invariant
            i <= x.len(),
            i <= y.len(),
            text_le(x@, y@) == text_le(x@.skip(i as int), y@.skip(i as int)),
        decreases x.len() - i,
    {
        if i == x.len() {
            return true;
        }
        if i == y.len() {
            return false;
        }
        if x[i] != y[i] {
            return x[i] < y[i];
        }
        assert(x@.skip(i as int).drop_first() =~= x@.skip(i + 1));
        assert(y@.skip(i as int).drop_first() =~= y@.skip(i + 1));
        i += 1;
    }
}

/// The strings of `items` in ascending order.
pub fn sort_texts(items: &Vec<String>) -> (r: Vec<String>)
    ensures
        views_of(r@) == sorted_texts(views_of(items@)),
{
    let ghost leq = text_order();
    let ghost all = views_of(items@);
    let mut sorted: Vec<String> = Vec::new();
    let mut i: usize = 0;
    proof {
        lemma_text_order_total();
        assert(all.take(0) =~= Seq::<Text>::empty());
        assert(views_of(sorted@) =~= Seq::<Text>::empty());
    }
    while i < items.len()
        invariant
            i <= items.len(),
            leq == text_order(),
            all == views_of(items@),
            total_ordering(leq),
            sorted_by(views_of(sorted@), leq),
            views_of(sorted@).to_multiset() == all.take(i as int).to_multiset(),
        decreases items.len() - i,
    {
        let x = items[i].clone();
        let xc = chars_of(x.as_str());
        let mut p: usize = 0;
        while p < sorted.len()
            invariant
                p <= sorted.len(),
                xc@ == x@,
                leq == text_order(),
                forall|k: int| 0 <= k < p ==> text_le(#[trigger] views_of(sorted@)[k], x@),
            ensures
                p <= sorted.len(),
                forall|k: int| 0 <= k < p ==> text_le(#[trigger] views_of(sorted@)[k], x@),
                p < sorted.len() ==> !text_le(views_of(sorted@)[p as int], x@),
            decreases sorted.len() - p,
        {
            let yc = chars_of(sorted[p].as_str());
            if !chars_le(&yc, &xc) {
                break ;
            }
            p += 1;
        }
        let ghost before = views_of(sorted@);
        sorted.insert(p, x);
        proof {
            let after = views_of(sorted@);
            assert(after =~= before.insert(p as int, x@));
            assert(p < before.len() ==> !text_le(before[p as int], x@));
            assert forall|a: int, b: int| 0 <= a < b < after.len() implies #[trigger] leq(
                after[a],
                after[b],
            ) by {
                if a < p && b == p {
                    assert(text_le(before[a], x@));
                } else if a < p && b > p {
                    assert(leq(before[a], before[b - 1]));
                } else if a < p && b < p {
                    assert(leq(before[a], before[b]));
                } else if a == p {
                    assert(leq(before[p as int], before[b - 1]) || p as int == b - 1);
                    assert(leq(x@, before[p as int]) || leq(before[p as int], x@));
                    assert(leq(before[p as int], before[b - 1]) && leq(x@, before[p as int])
                        ==> leq(x@, before[b - 1]));
                    lemma_text_le_reflexive(before[p as int]);
                } else {
                    assert(leq(before[a - 1], before[b - 1]));
                }
            }
            vstd::seq_lib::to_multiset_insert(before, p as int, x@);
            assert(all.take(i + 1) =~= all.take(i as int).push(x@));
            vstd::seq_lib::to_multiset_build(all.take(i as int), x@);
        }
        i += 1;
    }
    proof {
        assert(all.take(items@.len() as int) =~= all);
        all.lemma_sort_by_ensures(leq);
        lemma_sorted_unique(views_of(sorted@), all.sort_by(leq), leq);
    }
    sorted
}

/// The texts of `parts`, in order, with `sep` between each two.
pub open spec fn joined(parts: Seq<Text>, sep: char) -> Text
    decreases parts.len(),
{
    if parts.len() == 0 {
        Seq::empty()
    } else if parts.len() == 1 {
        parts[0]
    } else {
        joined(parts.drop_last(), sep).push(sep) + parts.last()
    }
}

/// Joins the strings of `parts` with `sep` between each two.
pub fn join_texts(parts: &Vec<String>, sep: char) -> (r: String)
    ensures
        r@ == joined(views_of(parts@), sep),
{
    let mut r = String::new();
    let mut i: usize = 0;
    while i < parts.len()
        invariant
            i <= parts.len(),
            r@ == joined(views_of(parts@).take(i as int), sep),
        decreases parts.len() - i,
    {
        if i > 0 {
            r.push(sep);
        }
        append_text(&mut r, parts[i].as_str());
        proof {
            let all = views_of(parts@);
            assert(all.take(i + 1).drop_last() =~= all.take(i as int));
            assert(all.take(i + 1).last() == parts@[i as int]@);
            if i == 0 {
                assert(r@ =~= parts@[0]@);
            }
        }
        i += 1;
    }
    assert(views_of(parts@).take(parts@.len() as int) =~= views_of(parts@));
    r
}

} // verus!
