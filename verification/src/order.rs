//! The order of texts, and sorting by it.

use crate::text;
use vstd::prelude::*;
use vstd::relations::{sorted_by, total_ordering};

verus! {

/// Whether `a` comes before `b` in a dictionary, or is the same text: the first
/// character in which they differ decides, and a text comes before its
/// continuations.
pub open spec fn lex_le(a: Seq<char>, b: Seq<char>) -> bool
    decreases a.len(),
{
    if a.len() == 0 {
        true
    } else if b.len() == 0 {
        false
    } else if a[0] == b[0] {
        lex_le(a.drop_first(), b.drop_first())
    } else {
        a[0] < b[0]
    }
}

/// Each text is in order with itself.
pub proof fn lex_reflexive(a: Seq<char>)
    ensures
        lex_le(a, a),
    decreases a.len(),
{
    if a.len() > 0 {
        lex_reflexive(a.drop_first());
    }
}

/// Of two texts one comes first.
pub proof fn lex_total(a: Seq<char>, b: Seq<char>)
    ensures
        lex_le(a, b) || lex_le(b, a),
    decreases a.len(),
{
    if a.len() > 0 && b.len() > 0 && a[0] == b[0] {
        lex_total(a.drop_first(), b.drop_first());
    }
}

/// Texts that are in order both ways are the same.
pub proof fn lex_antisymmetric(a: Seq<char>, b: Seq<char>)
    requires
        lex_le(a, b),
        lex_le(b, a),
    ensures
        a == b,
    decreases a.len(),
{
    if a.len() > 0 && b.len() > 0 {
        assert(a[0] == b[0]);
        let x = a.drop_first();
        let y = b.drop_first();
        lex_antisymmetric(x, y);
        assert(a.len() == b.len()) by {
            assert(x.len() == y.len());
        }
        assert forall|i: int| 0 <= i < a.len() implies a[i] == b[i] by {
            if i > 0 {
                assert(a[i] == x[i - 1]);
                assert(b[i] == y[i - 1]);
            }
        }
        assert(a =~= b);
    } else {
        assert(a.len() == 0 && b.len() == 0);
        assert(a =~= b);
    }
}

/// The order carries over.
pub proof fn lex_transitive(a: Seq<char>, b: Seq<char>, c: Seq<char>)
    requires
        lex_le(a, b),
        lex_le(b, c),
    ensures
        lex_le(a, c),
    decreases a.len(),
{
    if a.len() > 0 && b.len() > 0 && c.len() > 0 && a[0] == b[0] && b[0] == c[0] {
        lex_transitive(a.drop_first(), b.drop_first(), c.drop_first());
    }
}

/// The order of places by the texts there; equal texts keep their order.
pub open spec fn by_key(keys: Seq<Seq<char>>) -> spec_fn(int, int) -> bool {
    |i: int, j: int|
        if keys[i] == keys[j] {
            i <= j
        } else {
            lex_le(keys[i], keys[j])
        }
}

/// Of any two places one comes first.
pub proof fn by_key_total(keys: Seq<Seq<char>>)
    ensures
        total_ordering(by_key(keys)),
{
    let r = by_key(keys);
    assert forall|x: int, y: int| #[trigger] r(x, y) && #[trigger] r(y, x) implies x == y by {
        if keys[x] != keys[y] {
            lex_antisymmetric(keys[x], keys[y]);
        }
    }
    assert forall|x: int, y: int, z: int| #[trigger] r(x, y) && #[trigger] r(y, z) implies r(
        x,
        z,
    ) by {
        if keys[x] != keys[z] {
            if keys[x] == keys[y] {
            } else if keys[y] == keys[z] {
            } else {
                lex_transitive(keys[x], keys[y], keys[z]);
            }
        } else if keys[x] != keys[y] {
            lex_antisymmetric(keys[x], keys[y]);
        }
    }
    assert forall|x: int, y: int| #[trigger] r(x, y) || #[trigger] r(y, x) by {
        lex_total(keys[x], keys[y]);
    }
}

/// The places from `from` up to `to`.
pub open spec fn places_between(from: int, to: int) -> Seq<int> {
    Seq::new((to - from) as nat, |i: int| from + i)
}

/// The places of some texts in the order of the texts; equal texts keep their
/// order.
pub open spec fn order_of(keys: Seq<Seq<char>>) -> Seq<int> {
    places_between(0, keys.len() as int).sort_by(by_key(keys))
}

/// Indices seen as mathematical numbers.
pub open spec fn places(v: Seq<usize>) -> Seq<int> {
    Seq::new(v.len(), |i: int| v[i] as int)
}

/// Whether `a` comes before `b`, or is the same text.
fn chars_in_order(a: &Vec<char>, b: &Vec<char>) -> (r: bool)
    ensures
        r == lex_le(a@, b@),
{
    let mut i: usize = 0;
    assert(a@.skip(0) =~= a@);
    assert(b@.skip(0) =~= b@);
    while i < a.len() && i < b.len()
        invariant
            i <= a@.len(),
            i <= b@.len(),
            lex_le(a@.skip(i as int), b@.skip(i as int)) == lex_le(a@, b@),
        decreases a@.len() - i,
    {
        let ghost x = a@.skip(i as int);
        let ghost y = b@.skip(i as int);
        assert(x[0] == a@[i as int] && y[0] == b@[i as int]);
        assert(x.drop_first() =~= a@.skip(i + 1));
        assert(y.drop_first() =~= b@.skip(i + 1));
        if a[i] != b[i] {
            return a[i] < b[i];
        }
        i += 1;
    }
    i >= a.len()
}

/// Whether the text `a` comes before `b`, or is the same.
pub fn in_order(a: &str, b: &str) -> (r: bool)
    ensures
        r == lex_le(a@, b@),
{
    chars_in_order(&text::chars_of(a), &text::chars_of(b))
}

/// The characters of some texts.
pub open spec fn char_views(v: Seq<Vec<char>>) -> Seq<Seq<char>> {
    Seq::new(v.len(), |i: int| v[i]@)
}

/// Whether place `i` comes before place `j`.
fn place_in_order(keys: &Vec<Vec<char>>, i: usize, j: usize) -> (r: bool)
    requires
        i < keys@.len(),
        j < keys@.len(),
    ensures
        r == by_key(char_views(keys@))(i as int, j as int),
{
    let ghost ks = char_views(keys@);
    assert(ks[i as int] == keys@[i as int]@);
    assert(ks[j as int] == keys@[j as int]@);
    let there = chars_in_order(&keys[i], &keys[j]);
    let back = chars_in_order(&keys[j], &keys[i]);
    proof {
        if there && back {
            lex_antisymmetric(ks[i as int], ks[j as int]);
        }
        lex_reflexive(ks[i as int]);
    }
    if there && back {
        i <= j
    } else {
        there
    }
}

/// Whether all indices are below `n`.
pub open spec fn all_below(v: Seq<usize>, n: int) -> bool {
    forall|i: int| 0 <= i < v.len() ==> (#[trigger] v[i]) < n
}

/// Merges two sorted lists of places.
fn merge(keys: &Vec<Vec<char>>, a: &Vec<usize>, b: &Vec<usize>) -> (r: Vec<usize>)
    requires
        all_below(a@, keys@.len() as int),
        all_below(b@, keys@.len() as int),
        sorted_by(places(a@), by_key(char_views(keys@))),
        sorted_by(places(b@), by_key(char_views(keys@))),
    ensures
        all_below(r@, keys@.len() as int),
        sorted_by(places(r@), by_key(char_views(keys@))),
        places(r@).to_multiset() == places(a@).to_multiset().add(places(b@).to_multiset()),
        r@.len() == a@.len() + b@.len(),
{
    broadcast use vstd::seq_lib::group_to_multiset_ensures;

    let ghost leq = by_key(char_views(keys@));
    proof {
        by_key_total(char_views(keys@));
    }
    let ghost pa = places(a@);
    let ghost pb = places(b@);
    let mut out: Vec<usize> = Vec::new();
    let mut i: usize = 0;
    let mut j: usize = 0;
    assert(pa.take(0) =~= Seq::<int>::empty());
    assert(pb.take(0) =~= Seq::<int>::empty());
    assert(places(out@) =~= Seq::<int>::empty());
    assert(Seq::<int>::empty().to_multiset().add(Seq::<int>::empty().to_multiset())
        =~= Seq::<int>::empty().to_multiset());
    while i < a.len() || j < b.len()
        invariant
            i <= a@.len(),
            j <= b@.len(),
            leq == by_key(char_views(keys@)),
            total_ordering(leq),
            pa == places(a@),
            pb == places(b@),
            all_below(a@, keys@.len() as int),
            all_below(b@, keys@.len() as int),
            all_below(out@, keys@.len() as int),
            sorted_by(pa, leq),
            sorted_by(pb, leq),
            sorted_by(places(out@), leq),
            out@.len() == i + j,
            places(out@).to_multiset() == pa.take(i as int).to_multiset().add(
                pb.take(j as int).to_multiset(),
            ),
            forall|k: int, m: int|
                #![trigger places(out@)[k], pa[m]]
                0 <= k < out@.len() && i <= m < pa.len() ==> leq(places(out@)[k], pa[m]),
            forall|k: int, m: int|
                #![trigger places(out@)[k], pb[m]]
                0 <= k < out@.len() && j <= m < pb.len() ==> leq(places(out@)[k], pb[m]),
        decreases a@.len() - i + (b@.len() - j),
    {
        broadcast use vstd::seq_lib::group_to_multiset_ensures;

        let ghost before = places(out@);
        let take_a = if i >= a.len() {
            false
        } else if j >= b.len() {
            true
        } else {
            assert(a@[i as int] < keys@.len() && b@[j as int] < keys@.len());
            place_in_order(keys, a[i], b[j])
        };
        if take_a {
            let x: usize = a[i];
            assert(x < keys@.len());
            assert(pa[i as int] == x as int);
            proof {
                if j < b@.len() {
                    assert forall|m: int| j <= m < pb.len() implies leq(x as int, #[trigger] pb[m]) by {
                        if m > j {
                            assert(leq(pb[j as int], pb[m]));
                        }
                        assert(pb[j as int] == b@[j as int] as int);
                    }
                }
                assert forall|m: int| i + 1 <= m < pa.len() implies leq(x as int, #[trigger] pa[m]) by {
                    assert(leq(pa[i as int], pa[m]));
                }
            }
            out.push(x);
            assert(places(out@) =~= before.push(x as int));
            assert(pa.take(i + 1) =~= pa.take(i as int).push(x as int));
            assert(places(out@).to_multiset() =~= pa.take(i + 1).to_multiset().add(
                pb.take(j as int).to_multiset(),
            ));
            proof {
                assert forall|k: int, m: int| 0 <= k < m < places(out@).len() implies #[trigger] leq(
                    places(out@)[k],
                    places(out@)[m],
                ) by {
                    if m == before.len() {
                        assert(leq(before[k], pa[i as int]));
                    } else {
                        assert(leq(before[k], before[m]));
                    }
                }
                assert forall|k: int, m: int|
                    #![trigger places(out@)[k], pa[m]]
                    0 <= k < out@.len() && i + 1 <= m < pa.len() implies leq(
                    places(out@)[k],
                    pa[m],
                ) by {
                    if k < before.len() {
                        assert(leq(before[k], pa[m]));
                    }
                }
                assert forall|k: int, m: int|
                    #![trigger places(out@)[k], pb[m]]
                    0 <= k < out@.len() && j <= m < pb.len() implies leq(
                    places(out@)[k],
                    pb[m],
                ) by {
                    if k < before.len() {
                        assert(leq(before[k], pb[m]));
                    }
                }
            }
            i += 1;
        } else {
            let x: usize = b[j];
            assert(x < keys@.len());
            assert(pb[j as int] == x as int);
            proof {
                if i < a@.len() {
                    assert(pa[i as int] == a@[i as int] as int);
                    assert(leq(pa[i as int], x as int) || leq(x as int, pa[i as int]));
                    assert forall|m: int| i <= m < pa.len() implies leq(x as int, #[trigger] pa[m]) by {
                        if m > i {
                            assert(leq(pa[i as int], pa[m]));
                        }
                    }
                }
                assert forall|m: int| j + 1 <= m < pb.len() implies leq(x as int, #[trigger] pb[m]) by {
                    assert(leq(pb[j as int], pb[m]));
                }
            }
            out.push(x);
            assert(places(out@) =~= before.push(x as int));
            assert(pb.take(j + 1) =~= pb.take(j as int).push(x as int));
            assert(places(out@).to_multiset() =~= pa.take(i as int).to_multiset().add(
                pb.take(j + 1).to_multiset(),
            ));
            proof {
                assert forall|k: int, m: int| 0 <= k < m < places(out@).len() implies #[trigger] leq(
                    places(out@)[k],
                    places(out@)[m],
                ) by {
                    if m == before.len() {
                        assert(leq(before[k], pb[j as int]));
                    } else {
                        assert(leq(before[k], before[m]));
                    }
                }
                assert forall|k: int, m: int|
                    #![trigger places(out@)[k], pa[m]]
                    0 <= k < out@.len() && i <= m < pa.len() implies leq(
                    places(out@)[k],
                    pa[m],
                ) by {
                    if k < before.len() {
                        assert(leq(before[k], pa[m]));
                    }
                }
                assert forall|k: int, m: int|
                    #![trigger places(out@)[k], pb[m]]
                    0 <= k < out@.len() && j + 1 <= m < pb.len() implies leq(
                    places(out@)[k],
                    pb[m],
                ) by {
                    if k < before.len() {
                        assert(leq(before[k], pb[m]));
                    }
                }
            }
            j += 1;
        }
    }
    assert(pa.take(pa.len() as int) =~= pa);
    assert(pb.take(pb.len() as int) =~= pb);
    out
}

/// Sorts the places from `from` up to `to`.
fn sort_part(keys: &Vec<Vec<char>>, from: usize, to: usize) -> (r: Vec<usize>)
    requires
        from <= to <= keys@.len(),
    ensures
        all_below(r@, keys@.len() as int),
        sorted_by(places(r@), by_key(char_views(keys@))),
        places(r@).to_multiset() == places_between(from as int, to as int).to_multiset(),
        r@.len() == to - from,
    decreases to - from,
{
    broadcast use vstd::seq_lib::group_to_multiset_ensures;

    if to - from <= 1 {
        let mut out: Vec<usize> = Vec::new();
        if to > from {
            out.push(from);
        }
        assert(places(out@) =~= places_between(from as int, to as int));
        return out;
    }
    let mid: usize = from + (to - from) / 2;
    let a = sort_part(keys, from, mid);
    let b = sort_part(keys, mid, to);
    let r = merge(keys, &a, &b);
    proof {
        let x = places_between(from as int, mid as int);
        let y = places_between(mid as int, to as int);
        assert(places_between(from as int, to as int) =~= x + y);
        vstd::seq_lib::lemma_multiset_commutative(x, y);
    }
    r
}

/// The places of some texts in the order of the texts.
pub fn sort_indices(keys: &Vec<String>) -> (r: Vec<usize>)
    ensures
        places(r@) == order_of(text::views(keys@)),
        all_below(r@, keys@.len() as int),
        r@.len() == keys@.len(),
{
    let mut chars: Vec<Vec<char>> = Vec::new();
    let mut i: usize = 0;
    while i < keys.len()
        invariant
            i <= keys@.len(),
            char_views(chars@) == text::views(keys@).take(i as int),
        decreases keys@.len() - i,
    {
        let ghost before = char_views(chars@);
        let c = text::chars_of(&keys[i]);
        chars.push(c);
        assert(char_views(chars@) =~= before.push(c@));
        assert(text::views(keys@).take(i + 1) =~= text::views(keys@).take(i as int).push(c@));
        i += 1;
    }
    let ghost ks = text::views(keys@);
    assert(ks.take(ks.len() as int) =~= ks);
    assert(chars@.len() == char_views(chars@).len());
    let r = sort_part(&chars, 0, chars.len());
    proof {
        by_key_total(ks);
        let all = places_between(0, ks.len() as int);
        all.lemma_sort_by_ensures(by_key(ks));
        vstd::seq_lib::lemma_sorted_unique(places(r@), order_of(ks), by_key(ks));
    }
    r
}

/// Sorting loses and doubles nothing, and the texts come out in order.
pub proof fn law_order_sorts(keys: Seq<Seq<char>>)
    ensures
        order_of(keys).to_multiset() == places_between(0, keys.len() as int).to_multiset(),
        sorted_by(order_of(keys), by_key(keys)),
{
    by_key_total(keys);
    places_between(0, keys.len() as int).lemma_sort_by_ensures(by_key(keys));
}

/// The order of some texts has each of their places once.
pub proof fn order_has_each_place(keys: Seq<Seq<char>>)
    ensures
        order_of(keys).len() == keys.len(),
        forall|i: int| 0 <= i < keys.len() ==> 0 <= #[trigger] order_of(keys)[i] < keys.len(),
        forall|i: int, j: int|
            0 <= i < j < keys.len() ==> #[trigger] order_of(keys)[i] != #[trigger] order_of(
                keys,
            )[j],
        forall|place: int|
            0 <= place < keys.len() ==> #[trigger] order_of(keys).contains(place),
        forall|i: int, j: int|
            0 <= i < j < keys.len() ==> lex_le(
                keys[#[trigger] order_of(keys)[i]],
                keys[#[trigger] order_of(keys)[j]],
            ),
        forall|i: int, j: int|
            0 <= i < j < keys.len() && keys[#[trigger] order_of(keys)[i]]
                == keys[#[trigger] order_of(keys)[j]] ==> order_of(keys)[i] < order_of(keys)[j],
{
    broadcast use vstd::seq_lib::group_to_multiset_ensures;

    law_order_sorts(keys);
    let all = places_between(0, keys.len() as int);
    let sorted = order_of(keys);
    assert(all.no_duplicates());
    all.lemma_multiset_has_no_duplicates();
    sorted.lemma_multiset_has_no_duplicates_conv();
    assert(sorted.to_multiset().len() == all.to_multiset().len());
    assert(sorted.len() == all.len());
    assert forall|i: int| 0 <= i < keys.len() implies 0 <= #[trigger] sorted[i] < keys.len() by {
        assert(sorted.contains(sorted[i]));
        assert(all.to_multiset().count(sorted[i]) > 0);
        assert(all.contains(sorted[i]));
    }
    assert forall|place: int| 0 <= place < keys.len() implies #[trigger] sorted.contains(place) by {
        assert(all[place] == place);
        assert(all.contains(place));
        assert(sorted.to_multiset().count(place) > 0);
    }
    assert forall|i: int, j: int| 0 <= i < j < keys.len() implies lex_le(
        keys[#[trigger] sorted[i]],
        keys[#[trigger] sorted[j]],
    ) by {
        assert(by_key(keys)(sorted[i], sorted[j]));
        lex_reflexive(keys[sorted[i]]);
    }
    assert forall|i: int, j: int|
        0 <= i < j < keys.len() && keys[#[trigger] sorted[i]] == keys[#[trigger] sorted[j]] implies
        sorted[i] < sorted[j] by {
        assert(by_key(keys)(sorted[i], sorted[j]));
        assert(sorted[i] != sorted[j]);
    }
}

} // verus!
