//! The map from each watched target to the generators that watch it, and the list that it is written
//! as.

use std::collections::BTreeMap;

use vstd::prelude::*;
use vstd::std_specs::btree::spec_btree_map_iter;
use vstd::std_specs::cmp::OrdSpec;
use vstd::std_specs::iter::IteratorSpec;

use crate::fri_params::copy_sizes;

verus! {

/// Generator indices, indexed by the representative of each target they watch.
pub type Watches = BTreeMap<usize, Vec<usize>>;

/// The value of a [`Watches`].
pub open spec fn watches_view(m: Map<usize, Vec<usize>>) -> Map<usize, Seq<usize>> {
    m.map_values(|v: Vec<usize>| v@)
}

/// `es` lists the entries of `m` by increasing key.
pub open spec fn lists_entries(es: Seq<(usize, Seq<usize>)>, m: Map<usize, Seq<usize>>) -> bool {
    &&& forall|i: int, j: int| 0 <= i < j < es.len() ==> (#[trigger] es[i]).0 < (#[trigger] es[j]).0
    &&& forall|i: int|
        0 <= i < es.len() ==> m.contains_key((#[trigger] es[i]).0) && m[es[i].0] == es[i].1
    &&& forall|k: usize| #[trigger]
        m.contains_key(k) ==> exists|i: int| 0 <= i < es.len() && (#[trigger] es[i]).0 == k
}

/// The entries of a map by increasing key.
pub open spec fn sorted_entries(m: Map<usize, Seq<usize>>) -> Seq<(usize, Seq<usize>)> {
    choose|es: Seq<(usize, Seq<usize>)>| lists_entries(es, m)
}

/// The map that results from inserting the entries one after the other.
pub open spec fn map_of(es: Seq<(usize, Seq<usize>)>) -> Map<usize, Seq<usize>>
    decreases es.len(),
{
    if es.len() == 0 {
        Map::empty()
    } else {
        map_of(es.drop_last()).insert(es.last().0, es.last().1)
    }
}

/// A map has one list of entries.
proof fn lemma_entries_unique(
    a: Seq<(usize, Seq<usize>)>,
    b: Seq<(usize, Seq<usize>)>,
    m: Map<usize, Seq<usize>>,
)
    requires
        lists_entries(a, m),
        lists_entries(b, m),
    ensures
        a == b,
    decreases a.len(),
{
    if a.len() == 0 {
        if b.len() > 0 {
            assert(m.contains_key(b[0].0));
        }
        assert(a =~= b);
    } else {
        assert(m.contains_key(a.last().0));
        assert(b.len() > 0);
        assert(m.contains_key(b.last().0));
        let i = choose|i: int| 0 <= i < b.len() && (#[trigger] b[i]).0 == a.last().0;
        let j = choose|j: int| 0 <= j < a.len() && (#[trigger] a[j]).0 == b.last().0;
        assert(a.last().0 == b.last().0) by {
            if i < b.len() - 1 {
                assert(b[i].0 < b[b.len() - 1].0);
                if j < a.len() - 1 {
                    assert(a[j].0 < a[a.len() - 1].0);
                }
            }
        }
        let k = a.last().0;
        lemma_entries_without_last(a, m);
        lemma_entries_without_last(b, m);
        lemma_entries_unique(a.drop_last(), b.drop_last(), m.remove(k));
        assert(a =~= a.drop_last().push(a.last()));
        assert(b =~= b.drop_last().push(b.last()));
    }
}

proof fn lemma_entries_without_last(a: Seq<(usize, Seq<usize>)>, m: Map<usize, Seq<usize>>)
    requires
        a.len() > 0,
        lists_entries(a, m),
    ensures
        lists_entries(a.drop_last(), m.remove(a.last().0)),
{
    let k = a.last().0;
    let rest = a.drop_last();
    assert forall|i: int| 0 <= i < rest.len() implies m.remove(k).contains_key(
        (#[trigger] rest[i]).0,
    ) && m.remove(k)[rest[i].0] == rest[i].1 by {
        assert(a[i].0 < a[a.len() - 1].0);
    }
    assert forall|x: usize| #[trigger] m.remove(k).contains_key(x) implies exists|i: int|
        0 <= i < rest.len() && (#[trigger] rest[i]).0 == x by {
        assert(m.contains_key(x));
        let i = choose|i: int| 0 <= i < a.len() && (#[trigger] a[i]).0 == x;
        assert(rest[i].0 == x);
    }
}

/// Inserting the entries of a map one after the other gives the map.
proof fn lemma_map_of_entries(es: Seq<(usize, Seq<usize>)>, m: Map<usize, Seq<usize>>)
    requires
        lists_entries(es, m),
    ensures
        map_of(es) == m,
    decreases es.len(),
{
    if es.len() == 0 {
        assert(map_of(es) =~= m);
    } else {
        let k = es.last().0;
        lemma_entries_without_last(es, m);
        lemma_map_of_entries(es.drop_last(), m.remove(k));
        assert(m.contains_key(k) && m[k] == es.last().1);
        assert(map_of(es) =~= m);
    }
}

/// A map that is written as its sorted entries is read back as it was.
pub proof fn law_sorted_entries(es: Seq<(usize, Seq<usize>)>, m: Map<usize, Seq<usize>>)
    requires
        lists_entries(es, m),
    ensures
        es == sorted_entries(m),
        map_of(sorted_entries(m)) == m,
{
    lemma_entries_unique(es, sorted_entries(m), m);
    lemma_map_of_entries(es, m);
}

proof fn lemma_usize_order()
    ensures
        vstd::laws_cmp::obeys_cmp::<usize>(),
        vstd::std_specs::btree::key_obeys_cmp_spec::<usize>(),
{
    broadcast use vstd::laws_cmp::group_laws_cmp;
    broadcast use vstd::std_specs::btree::group_btree_axioms;

}

/// Keys that the standard library calls increasing are increasing.
proof fn lemma_increasing(s: Seq<usize>)
    requires
        vstd::std_specs::btree::increasing_seq(s),
    ensures
        forall|i: int, j: int| 0 <= i < j < s.len() ==> (#[trigger] s[i]) < (#[trigger] s[j]),
{
    broadcast use vstd::std_specs::btree::group_btree_axioms;

    lemma_usize_order();
    assert forall|i: int, j: int| 0 <= i < j < s.len() implies (#[trigger] s[i]) < (
    #[trigger] s[j]) by {
        assert(s[i].cmp_spec(&s[j]) is Less);
    }
}

/// Copies of the pairs of a map, by increasing key, are its entries.
proof fn lemma_entries_of_pairs(
    pairs: Seq<(&usize, &Vec<usize>)>,
    r: &Vec<(usize, Vec<usize>)>,
    map: Map<usize, Vec<usize>>,
)
    requires
        r@.len() == pairs.len(),
        forall|i: int|
            0 <= i < r@.len() ==> (#[trigger] r@[i]).0 == *pairs[i].0 && r@[i].1@ == pairs[i].1@,
        forall|i: int, j: int|
            0 <= i < j < pairs.len() ==> *(#[trigger] pairs[i]).0 < *(#[trigger] pairs[j]).0,
        forall|i: int|
            0 <= i < pairs.len() ==> map.contains_key(*(#[trigger] pairs[i]).0)
                && map[*pairs[i].0] == *pairs[i].1,
        forall|k: usize| #[trigger] map.contains_key(k) ==> pairs.contains((&k, &map[k])),
    ensures
        lists_entries(r.deep_view(), watches_view(map)),
{
    let es = r.deep_view();
    let m = watches_view(map);
    assert forall|i: int| 0 <= i < es.len() implies (#[trigger] es[i]).0 == *pairs[i].0 && es[i].1
        == pairs[i].1@ by {
        assert(r@[i].1.deep_view() =~= r@[i].1@);
    }
    assert forall|i: int| 0 <= i < es.len() implies m.contains_key((#[trigger] es[i]).0)
        && m[es[i].0] == es[i].1 by {
        assert(map.contains_key(*pairs[i].0));
    }
    assert forall|k: usize| #[trigger] m.contains_key(k) implies exists|i: int|
        0 <= i < es.len() && (#[trigger] es[i]).0 == k by {
        assert(map.contains_key(k));
        let i = choose|i: int| 0 <= i < pairs.len() && pairs[i] == (&k, &map[k]);
        assert(es[i].0 == k);
    }
}

/// The entries of the map by increasing key.
pub fn entries(map: &Watches) -> (r: Vec<(usize, Vec<usize>)>)
    ensures
        lists_entries(r.deep_view(), watches_view(map@)),
        r.deep_view() == sorted_entries(watches_view(map@)),
{
    broadcast use vstd::std_specs::btree::group_btree_axioms;

    proof {
        lemma_usize_order();
    }
    let mut r: Vec<(usize, Vec<usize>)> = Vec::new();
    let pairs = map.iter();
    proof {
        lemma_increasing(pairs.remaining().map_values(|kv: (&usize, &Vec<usize>)| *kv.0));
    }
    assert forall|i: int, j: int| 0 <= i < j < pairs.remaining().len() implies *(
    #[trigger] pairs.remaining()[i]).0 < *(#[trigger] pairs.remaining()[j]).0 by {
        let keys = pairs.remaining().map_values(|kv: (&usize, &Vec<usize>)| *kv.0);
        assert(keys[i] < keys[j]);
    }
    for kv in it: pairs
        invariant
            it.seq() == spec_btree_map_iter(map).remaining(),
            forall|i: int, j: int|
                0 <= i < j < it.seq().len() ==> *(#[trigger] it.seq()[i]).0 < *(
                #[trigger] it.seq()[j]).0,
            r@.len() == it.index(),
            forall|i: int|
                0 <= i < r@.len() ==> (#[trigger] r@[i]).0 == *it.seq()[i].0 && r@[i].1@
                    == it.seq()[i].1@,
    {
        r.push((*kv.0, copy_sizes(kv.1)));
    }
    proof {
        lemma_entries_of_pairs(spec_btree_map_iter(map).remaining(), &r, map@);
        law_sorted_entries(r.deep_view(), watches_view(map@));
    }
    r
}

/// Inserts the entries one after the other.
pub fn collect(entries: &Vec<(usize, Vec<usize>)>) -> (r: Watches)
    ensures
        watches_view(r@) == map_of(entries.deep_view()),
{
    let ghost es = entries.deep_view();
    let mut r: Watches = BTreeMap::new();
    let mut i: usize = 0;
    assert(watches_view(r@) =~= map_of(es.take(0)));
    while i < entries.len()
        invariant
            i <= entries@.len(),
            es == entries.deep_view(),
            watches_view(r@) == map_of(es.take(i as int)),
        decreases entries@.len() - i,
    {
        proof {
            lemma_usize_order();
        }
        r.insert(entries[i].0, copy_sizes(&entries[i].1));
        proof {
            let longer = es.take(i + 1);
            assert(longer.drop_last() =~= es.take(i as int));
            assert(entries@[i as int].1.deep_view() =~= entries@[i as int].1@);
            assert(watches_view(r@) =~= map_of(longer));
        }
        i = i + 1;
    }
    assert(es.take(entries@.len() as int) =~= es);
    r
}

/// The entries of a map are listed by increasing key, each with its value, and none is left out.
pub proof fn law_entries(map: &Watches, r: Vec<(usize, Vec<usize>)>)
    requires
        call_ensures(entries, (map,), r),
    ensures
        forall|i: int, j: int|
            0 <= i < j < r@.len() ==> (#[trigger] r@[i]).0 < (#[trigger] r@[j]).0,
        forall|i: int|
            0 <= i < r@.len() ==> map@.contains_key((#[trigger] r@[i]).0) && map@[r@[i].0]@
                == r@[i].1@,
        forall|k: usize| #[trigger]
            map@.contains_key(k) ==> exists|i: int| 0 <= i < r@.len() && (#[trigger] r@[i]).0 == k,
{
    let es = r.deep_view();
    let m = watches_view(map@);
    assert forall|i: int| 0 <= i < r@.len() implies es[i].0 == (#[trigger] r@[i]).0 && es[i].1
        == r@[i].1@ by {
        assert(r@[i].1.deep_view() =~= r@[i].1@);
    }
    assert forall|i: int, j: int| 0 <= i < j < r@.len() implies (#[trigger] r@[i]).0 < (
    #[trigger] r@[j]).0 by {
        assert(es[i].0 < es[j].0);
    }
    assert forall|i: int| 0 <= i < r@.len() implies map@.contains_key((#[trigger] r@[i]).0)
        && map@[r@[i].0]@ == r@[i].1@ by {
        assert(m.contains_key(es[i].0) && m[es[i].0] == es[i].1);
    }
    assert forall|k: usize| #[trigger] map@.contains_key(k) implies exists|i: int|
        0 <= i < r@.len() && (#[trigger] r@[i]).0 == k by {
        assert(m.contains_key(k));
        let i = choose|i: int| 0 <= i < es.len() && (#[trigger] es[i]).0 == k;
        assert(r@[i].0 == k);
    }
}

/// `i` is the last entry for the key `k`.
pub open spec fn last_entry_for(es: Seq<(usize, Vec<usize>)>, k: usize, i: int) -> bool {
    &&& 0 <= i < es.len()
    &&& es[i].0 == k
    &&& forall|j: int| i < j < es.len() ==> (#[trigger] es[j]).0 != k
}

proof fn lemma_map_of_last(es: Seq<(usize, Vec<usize>)>, vs: Seq<(usize, Seq<usize>)>, k: usize)
    requires
        vs.len() == es.len(),
        forall|i: int|
            0 <= i < es.len() ==> (#[trigger] vs[i]).0 == es[i].0 && vs[i].1 == es[i].1@,
    ensures
        map_of(vs).contains_key(k) <==> exists|i: int| #[trigger] last_entry_for(es, k, i),
        forall|i: int| #[trigger] last_entry_for(es, k, i) ==> map_of(vs)[k] == es[i].1@,
    decreases es.len(),
{
    if es.len() > 0 {
        let n = es.len() - 1;
        let (rest, values) = (es.drop_last(), vs.drop_last());
        lemma_map_of_last(rest, values, k);
        assert(vs.last() == vs[n as int]);
        if es[n as int].0 == k {
            assert(last_entry_for(es, k, n as int));
        } else {
            assert forall|i: int| #[trigger] last_entry_for(es, k, i) implies last_entry_for(
                rest,
                k,
                i,
            ) by {
                assert forall|j: int| i < j < rest.len() implies (#[trigger] rest[j]).0 != k by {
                    assert(es[j].0 != k);
                }
            }
            assert forall|i: int| #[trigger] last_entry_for(rest, k, i) implies last_entry_for(
                es,
                k,
                i,
            ) by {
                assert forall|j: int| i < j < es.len() implies (#[trigger] es[j]).0 != k by {
                    if j < n {
                        assert(rest[j].0 != k);
                    }
                }
            }
        }
    }
}

/// The map that entries are collected into has their keys, and for each key the value of its last
/// entry.
pub proof fn law_collect(es: &Vec<(usize, Vec<usize>)>, r: Watches, k: usize)
    requires
        call_ensures(collect, (es,), r),
    ensures
        r@.contains_key(k) <==> exists|i: int| #[trigger] last_entry_for(es@, k, i),
        forall|i: int| #[trigger] last_entry_for(es@, k, i) ==> r@[k]@ == es@[i].1@,
{
    let vs = es.deep_view();
    assert forall|i: int| 0 <= i < es@.len() implies (#[trigger] vs[i]).0 == es@[i].0 && vs[i].1
        == es@[i].1@ by {
        assert(es@[i].1.deep_view() =~= es@[i].1@);
    }
    lemma_map_of_last(es@, vs, k);
    assert(watches_view(r@).contains_key(k) == r@.contains_key(k));
    if r@.contains_key(k) {
        assert(watches_view(r@)[k] == r@[k]@);
    }
    assert forall|i: int| #[trigger] last_entry_for(es@, k, i) implies r@[k]@ == es@[i].1@ by {
        assert(map_of(vs).contains_key(k));
    }
}

} // verus!
