//! Association lists viewed as maps. The book sides and the per-symbol
//! caches store their entries in vectors of key/value pairs with
//! pairwise-distinct keys; contracts speak of the abstract `Map` those
//! entries denote.

use vstd::prelude::*;

verus! {

/// The map denoted by a list of key/value pairs; later entries win.
pub open spec fn assoc_view<K: View, V: View>(entries: Seq<(K, V)>) -> Map<K::V, V::V>
    decreases entries.len(),
{
    if entries.len() == 0 {
        Map::empty()
    } else {
        assoc_view(entries.drop_last()).insert(entries.last().0@, entries.last().1@)
    }
}

/// Pairwise-distinct keys, by view.
pub open spec fn assoc_distinct<K: View, V>(entries: Seq<(K, V)>) -> bool {
    forall|i: int, j: int|
        0 <= i < j < entries.len() ==> (#[trigger] entries[i]).0@ != (#[trigger] entries[j]).0@
}

pub proof fn lemma_assoc_contains<K: View, V: View>(entries: Seq<(K, V)>, k: K::V)
    ensures
        assoc_view(entries).contains_key(k) <==> exists|i: int|
            0 <= i < entries.len() && (#[trigger] entries[i]).0@ == k,
    decreases entries.len(),
{
    if entries.len() > 0 {
        lemma_assoc_contains(entries.drop_last(), k);
        if entries.last().0@ == k {
            assert(entries[entries.len() - 1].0@ == k);
        } else if assoc_view(entries).contains_key(k) {
            let i = choose|i: int|
                0 <= i < entries.drop_last().len() && (#[trigger] entries.drop_last()[i]).0@ == k;
            assert(entries[i].0@ == k);
        } else {
            assert forall|i: int| 0 <= i < entries.len() implies (#[trigger] entries[i]).0@ != k by {
                if i < entries.len() - 1 {
                    assert(entries.drop_last()[i].0@ == entries[i].0@);
                }
            }
        }
    }
}

pub proof fn lemma_assoc_at<K: View, V: View>(entries: Seq<(K, V)>, i: int)
    requires
        assoc_distinct(entries),
        0 <= i < entries.len(),
    ensures
        assoc_view(entries).contains_key(entries[i].0@),
        assoc_view(entries)[entries[i].0@] == entries[i].1@,
    decreases entries.len(),
{
    if i == entries.len() - 1 {
    } else {
        assert(assoc_distinct(entries.drop_last())) by {
            assert(forall|a: int, b: int|
                0 <= a < b < entries.len() - 1 ==> (#[trigger] entries.drop_last()[a]).0@ != (
                #[trigger] entries.drop_last()[b]).0@);
        }
        assert(entries.drop_last()[i] == entries[i]);
        lemma_assoc_at(entries.drop_last(), i);
        assert(entries[i].0@ != entries.last().0@);
    }
}

pub proof fn lemma_assoc_update<K: View, V: View>(entries: Seq<(K, V)>, i: int, p: (K, V))
    requires
        assoc_distinct(entries),
        0 <= i < entries.len(),
        p.0@ == entries[i].0@,
    ensures
        assoc_view(entries.update(i, p)) == assoc_view(entries).insert(p.0@, p.1@),
        assoc_distinct(entries.update(i, p)),
    decreases entries.len(),
{
    let u = entries.update(i, p);
    assert forall|a: int, b: int| 0 <= a < b < u.len() implies (#[trigger] u[a]).0@ != (
    #[trigger] u[b]).0@ by {
        assert(entries[a].0@ != entries[b].0@);
    }
    if i == entries.len() - 1 {
        assert(u.drop_last() =~= entries.drop_last());
        assert(u.last() == p);
        assert(assoc_view(entries.drop_last()).insert(p.0@, p.1@) =~= assoc_view(
            entries,
        ).insert(p.0@, p.1@));
    } else {
        assert(assoc_distinct(entries.drop_last())) by {
            assert(forall|a: int, b: int|
                0 <= a < b < entries.len() - 1 ==> (#[trigger] entries.drop_last()[a]).0@ != (
                #[trigger] entries.drop_last()[b]).0@);
        }
        assert(u.drop_last() =~= entries.drop_last().update(i, p));
        assert(entries.drop_last()[i] == entries[i]);
        lemma_assoc_update(entries.drop_last(), i, p);
        assert(u.last() == entries.last());
        assert(p.0@ != entries.last().0@);
        assert(assoc_view(entries.drop_last()).insert(p.0@, p.1@).insert(
            entries.last().0@,
            entries.last().1@,
        ) =~= assoc_view(entries).insert(p.0@, p.1@));
    }
}

pub proof fn lemma_assoc_remove<K: View, V: View>(entries: Seq<(K, V)>, i: int)
    requires
        assoc_distinct(entries),
        0 <= i < entries.len(),
    ensures
        assoc_view(entries.remove(i)) == assoc_view(entries).remove(entries[i].0@),
        assoc_distinct(entries.remove(i)),
    decreases entries.len(),
{
    let u = entries.remove(i);
    assert forall|a: int, b: int| 0 <= a < b < u.len() implies (#[trigger] u[a]).0@ != (
    #[trigger] u[b]).0@ by {
        let a0 = if a < i { a } else { a + 1 };
        let b0 = if b < i { b } else { b + 1 };
        assert(u[a] == entries[a0]);
        assert(u[b] == entries[b0]);
        assert(entries[a0].0@ != entries[b0].0@);
    }
    assert(assoc_distinct(entries.drop_last())) by {
        assert(forall|a: int, b: int|
            0 <= a < b < entries.len() - 1 ==> (#[trigger] entries.drop_last()[a]).0@ != (
            #[trigger] entries.drop_last()[b]).0@);
    }
    if i == entries.len() - 1 {
        assert(u =~= entries.drop_last());
        lemma_assoc_contains(entries.drop_last(), entries[i].0@);
        assert(forall|j: int|
            0 <= j < entries.len() - 1 ==> (#[trigger] entries.drop_last()[j]).0@ != entries[i].0@);
        assert(!assoc_view(entries.drop_last()).contains_key(entries[i].0@));
        assert(assoc_view(u) =~= assoc_view(entries).remove(entries[i].0@));
    } else {
        assert(u.drop_last() =~= entries.drop_last().remove(i));
        assert(entries.drop_last()[i] == entries[i]);
        lemma_assoc_remove(entries.drop_last(), i);
        assert(u.last() == entries.last());
        assert(entries[i].0@ != entries.last().0@);
        assert(assoc_view(entries.drop_last()).remove(entries[i].0@).insert(
            entries.last().0@,
            entries.last().1@,
        ) =~= assoc_view(entries).remove(entries[i].0@));
    }
}

pub proof fn lemma_assoc_len<K: View, V: View>(entries: Seq<(K, V)>)
    requires
        assoc_distinct(entries),
    ensures
        assoc_view(entries).dom().finite(),
        assoc_view(entries).dom().len() == entries.len(),
    decreases entries.len(),
{
    if entries.len() > 0 {
        assert(assoc_distinct(entries.drop_last())) by {
            assert(forall|a: int, b: int|
                0 <= a < b < entries.len() - 1 ==> (#[trigger] entries.drop_last()[a]).0@ != (
                #[trigger] entries.drop_last()[b]).0@);
        }
        lemma_assoc_len(entries.drop_last());
        lemma_assoc_contains(entries.drop_last(), entries.last().0@);
        assert(forall|i: int|
            0 <= i < entries.len() - 1 ==> (#[trigger] entries.drop_last()[i]).0@
                != entries.last().0@) by {
            assert(forall|i: int|
                0 <= i < entries.len() - 1 ==> (#[trigger] entries[i]).0@ != entries[entries.len()
                    - 1].0@);
        }
        assert(!assoc_view(entries.drop_last()).contains_key(entries.last().0@));
        vstd::set::axiom_set_insert_len(
            assoc_view(entries.drop_last()).dom(),
            entries.last().0@,
        );
        assert(assoc_view(entries).dom() =~= assoc_view(entries.drop_last()).dom().insert(
            entries.last().0@,
        ));
    } else {
        assert(assoc_view(entries).dom() =~= Set::<K::V>::empty());
    }
}

pub proof fn lemma_assoc_push<K: View, V: View>(entries: Seq<(K, V)>, p: (K, V))
    requires
        assoc_distinct(entries),
        forall|i: int| 0 <= i < entries.len() ==> (#[trigger] entries[i]).0@ != p.0@,
    ensures
        assoc_view(entries.push(p)) == assoc_view(entries).insert(p.0@, p.1@),
        assoc_distinct(entries.push(p)),
{
    assert(entries.push(p).drop_last() =~= entries);
    let u = entries.push(p);
    assert forall|a: int, b: int| 0 <= a < b < u.len() implies (#[trigger] u[a]).0@ != (
    #[trigger] u[b]).0@ by {
        if b < entries.len() {
            assert(entries[a].0@ != entries[b].0@);
        } else {
            assert(u[a] == entries[a]);
        }
    }
}

} // verus!
