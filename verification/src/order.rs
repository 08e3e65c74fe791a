//! The order of texts: that of the dictionary, character by character, with
//! the characters in the order of their code points.

use crate::text::{strings, to_chars, to_text};
use vstd::prelude::*;
use vstd::relations::{sorted_by, total_ordering};

verus! {

/// Whether `a` stands before `b` in the order of texts, or is `b`.
pub open spec fn text_le(a: Seq<char>, b: Seq<char>) -> bool
    decreases a.len(),
{
    if a.len() == 0 {
        true
    } else if b.len() == 0 {
        false
    } else if a.first() != b.first() {
        a.first() < b.first()
    } else {
        text_le(a.drop_first(), b.drop_first())
    }
}

/// The order of texts as a relation.
pub open spec fn text_order() -> spec_fn(Seq<char>, Seq<char>) -> bool {
    |a: Seq<char>, b: Seq<char>| text_le(a, b)
}

/// Whether `names` stand in the order of texts.
pub open spec fn in_order(names: Seq<Seq<char>>) -> bool {
    sorted_by(names, text_order())
}

/// The texts of `list`, each as its sequence of characters.
pub open spec fn texts(list: Seq<Vec<char>>) -> Seq<Seq<char>> {
    list.map_values(|t: Vec<char>| t@)
}

/// Every text is at most itself.
pub proof fn lemma_text_le_reflexive(a: Seq<char>)
    ensures
        text_le(a, a),
    decreases a.len(),
{
    if a.len() > 0 {
        lemma_text_le_reflexive(a.drop_first());
    }
}

/// Of two texts one is at most the other.
pub proof fn lemma_text_le_total(a: Seq<char>, b: Seq<char>)
    ensures
        text_le(a, b) || text_le(b, a),
    decreases a.len(),
{
    if a.len() > 0 && b.len() > 0 && a.first() == b.first() {
        lemma_text_le_total(a.drop_first(), b.drop_first());
    }
}

/// Two texts, each at most the other, are one text.
pub proof fn lemma_text_le_antisymmetric(a: Seq<char>, b: Seq<char>)
    requires
        text_le(a, b),
        text_le(b, a),
    ensures
        a == b,
    decreases a.len(),
{
    if a.len() > 0 && b.len() > 0 {
        lemma_text_le_antisymmetric(a.drop_first(), b.drop_first());
        assert(a =~= seq![a.first()] + a.drop_first());
        assert(b =~= seq![b.first()] + b.drop_first());
    } else {
        assert(a =~= b);
    }
}

/// A text that is at most a second, which is at most a third, is at most the
/// third.
pub proof fn lemma_text_le_transitive(a: Seq<char>, b: Seq<char>, c: Seq<char>)
    requires
        text_le(a, b),
        text_le(b, c),
    ensures
        text_le(a, c),
    decreases a.len(),
{
    if a.len() > 0 && b.len() > 0 && c.len() > 0 && a.first() == b.first() && b.first()
        == c.first() {
        lemma_text_le_transitive(a.drop_first(), b.drop_first(), c.drop_first());
    }
}

/// The order of texts is a total order.
pub proof fn lemma_text_order_is_total()
    ensures
        total_ordering(text_order()),
{
    let r = text_order();
    assert forall|x: Seq<char>| #[trigger] r(x, x) by {
        lemma_text_le_reflexive(x);
    }
    assert forall|x: Seq<char>, y: Seq<char>| #[trigger] r(x, y) && #[trigger] r(y, x) implies x
        == y by {
        lemma_text_le_antisymmetric(x, y);
    }
    assert forall|x: Seq<char>, y: Seq<char>, z: Seq<char>| #[trigger]
        r(x, y) && #[trigger] r(y, z) implies r(x, z) by {
        lemma_text_le_transitive(x, y, z);
    }
    assert forall|x: Seq<char>, y: Seq<char>| #[trigger] r(x, y) || #[trigger] r(y, x) by {
        lemma_text_le_total(x, y);
    }
}

/// Texts can be put in order in one way only: two lists in order that hold the
/// same texts, each as often as the other, are one list.
pub proof fn law_order_is_unique(a: Seq<Seq<char>>, b: Seq<Seq<char>>)
    requires
        in_order(a),
        in_order(b),
        a.to_multiset() == b.to_multiset(),
    ensures
        a == b,
{
    lemma_text_order_is_total();
    vstd::seq_lib::lemma_sorted_unique(a, b, text_order());
}

/// Decides [`text_le`].
pub fn at_most(a: &[char], b: &[char]) -> (r: bool)
    ensures
        r == text_le(a@, b@),
{
    let mut i: usize = 0;
    assert(a@.skip(0) == a@ && b@.skip(0) == b@);
    while i < a.len() && i < b.len()
        invariant
            i <= a.len(),
            i <= b.len(),
            text_le(a@, b@) == text_le(a@.skip(i as int), b@.skip(i as int)),
        decreases a.len() - i,
    {
        if a[i] != b[i] {
            return a[i] < b[i];
        }
        assert(a@.skip(i as int).drop_first() == a@.skip(i + 1));
        assert(b@.skip(i as int).drop_first() == b@.skip(i + 1));
        i += 1;
    }
    i == a.len()
}

/// Puts `item` into the list `sorted`, which is in order, at its place: behind
/// the texts that do not stand after it.
fn insert_in_order(sorted: &mut Vec<Vec<char>>, item: Vec<char>)
    requires
        in_order(texts(old(sorted)@)),
    ensures
        in_order(texts(final(sorted)@)),
        texts(final(sorted)@).to_multiset() == texts(old(sorted)@).to_multiset().insert(item@),
{
    let mut at: usize = 0;
    while at < sorted.len() && at_most(sorted[at].as_slice(), item.as_slice())
        invariant
            at <= sorted.len(),
            forall|k: int| 0 <= k < at ==> text_le(texts(sorted@)[k], item@),
        decreases sorted.len() - at,
    {
        at += 1;
    }
    let ghost before = texts(sorted@);
    sorted.insert(at, item);
    proof {
        let after = texts(sorted@);
        assert(after =~= before.insert(at as int, item@));
        vstd::seq_lib::to_multiset_insert(before, at as int, item@);
        assert forall|i: int, j: int| 0 <= i < j < after.len() implies #[trigger] text_order()(
            after[i],
            after[j],
        ) by {
            if j < at {
                assert(text_order()(before[i], before[j]));
            } else if j == at {
                assert(text_le(before[i], item@));
            } else if i == at {
                // what follows the place stands after the item
                assert(!text_le(before[at as int], item@));
                lemma_text_le_total(before[at as int], item@);
                if j - 1 > at {
                    assert(text_order()(before[at as int], before[j - 1]));
                    lemma_text_le_transitive(item@, before[at as int], before[j - 1]);
                }
            } else if i < at {
                assert(text_order()(before[i], before[j - 1]));
            } else {
                assert(text_order()(before[i - 1], before[j - 1]));
            }
        }
    }
}

/// The names of `names`, put in the order of texts.
pub fn sort_names(names: &[String]) -> (r: Vec<String>)
    ensures
        in_order(strings(r@)),
        strings(r@).to_multiset() == strings(names@).to_multiset(),
{
    let mut sorted: Vec<Vec<char>> = Vec::new();
    let mut i: usize = 0;
    assert(strings(names@).take(0) =~= Seq::<Seq<char>>::empty());
    assert(texts(sorted@) =~= Seq::<Seq<char>>::empty());
    while i < names.len()
        invariant
            i <= names.len(),
            in_order(texts(sorted@)),
            texts(sorted@).to_multiset() == strings(names@).take(i as int).to_multiset(),
        decreases names.len() - i,
    {
        insert_in_order(&mut sorted, to_chars(names[i].as_str()));
        proof {
            let done = strings(names@).take(i as int);
            assert(strings(names@).take(i + 1) =~= done.push(names@[i as int]@));
            vstd::seq_lib::to_multiset_build(done, names@[i as int]@);
        }
        i += 1;
    }
    assert(strings(names@).take(names@.len() as int) =~= strings(names@));
    let mut r: Vec<String> = Vec::new();
    let mut k: usize = 0;
    while k < sorted.len()
        invariant
            k <= sorted.len(),
            r@.len() == k,
            forall|j: int| 0 <= j < k ==> r@[j]@ == sorted@[j]@,
        decreases sorted.len() - k,
    {
        r.push(to_text(sorted[k].as_slice()));
        k += 1;
    }
    assert(strings(r@) =~= texts(sorted@));
    r
}

} // verus!
