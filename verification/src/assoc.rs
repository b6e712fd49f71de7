//! Association lists: sequences of `(String, value)` entries with pairwise
//! distinct keys, abstracted as a `Map` from key characters to value views.
//!
//! The texture map and the in-memory model store both keep their entries this
//! way; the lemmas here relate the entry-level operations to map operations.

use vstd::prelude::*;

use crate::strings::str_eq;

verus! {

/// The map described by an association list: each entry binds the view of its
/// key to the view of its value.
pub open spec fn map_of<V: View>(entries: Seq<(String, V)>) -> Map<Seq<char>, V::V>
    decreases entries.len(),
{
    if entries.len() == 0 {
        Map::empty()
    } else {
        map_of(entries.drop_last()).insert(entries.last().0@, entries.last().1@)
    }
}

/// Pairwise distinct keys.
pub open spec fn unique_keys<V: View>(entries: Seq<(String, V)>) -> bool {
    forall|i: int, j: int| 0 <= i < j < entries.len() ==> entries[i].0@ != entries[j].0@
}

/// A key is in the map exactly when some entry carries it.
pub proof fn lemma_map_of_contains<V: View>(entries: Seq<(String, V)>, k: Seq<char>)
    ensures
        map_of(entries).contains_key(k) <==> exists|i: int|
            0 <= i < entries.len() && entries[i].0@ == k,
    decreases entries.len(),
{
    if entries.len() > 0 {
        lemma_map_of_contains(entries.drop_last(), k);
        if entries.last().0@ == k {
            assert(entries[entries.len() - 1].0@ == k);
        } else if exists|i: int| 0 <= i < entries.len() && entries[i].0@ == k {
            let i = choose|i: int| 0 <= i < entries.len() && entries[i].0@ == k;
            assert(entries.drop_last()[i] == entries[i]);
        }
    }
}

/// With distinct keys, the map sends each entry's key to that entry's value.
pub proof fn lemma_map_of_index<V: View>(entries: Seq<(String, V)>, i: int)
    requires
        unique_keys(entries),
        0 <= i < entries.len(),
    ensures
        map_of(entries).contains_key(entries[i].0@),
        map_of(entries)[entries[i].0@] == entries[i].1@,
    decreases entries.len(),
{
    if i < entries.len() - 1 {
        assert(unique_keys(entries.drop_last()));
        assert(entries.drop_last()[i] == entries[i]);
        lemma_map_of_index(entries.drop_last(), i);
        assert(entries[i].0@ != entries.last().0@);
    }
}

/// Replacing the value of the entry at `i`, keeping its key, is a map insert
/// on that key.
pub proof fn lemma_map_of_update<V: View>(entries: Seq<(String, V)>, i: int, e: (String, V))
    requires
        unique_keys(entries),
        0 <= i < entries.len(),
        e.0@ == entries[i].0@,
    ensures
        map_of(entries.update(i, e)) == map_of(entries).insert(e.0@, e.1@),
        unique_keys(entries.update(i, e)),
    decreases entries.len(),
{
    let upd = entries.update(i, e);
    assert(forall|j: int| 0 <= j < entries.len() && j != i ==> upd[j] == entries[j]);
    if i == entries.len() - 1 {
        assert(upd.drop_last() =~= entries.drop_last());
        assert(map_of(upd) == map_of(entries.drop_last()).insert(e.0@, e.1@));
        assert(map_of(entries.drop_last()).insert(entries.last().0@, entries.last().1@).insert(
            e.0@,
            e.1@,
        ) =~= map_of(entries.drop_last()).insert(e.0@, e.1@));
    } else {
        assert(unique_keys(entries.drop_last()));
        assert(entries.drop_last()[i] == entries[i]);
        lemma_map_of_update(entries.drop_last(), i, e);
        assert(upd.drop_last() =~= entries.drop_last().update(i, e));
        assert(upd.last() == entries.last());
        assert(e.0@ != entries.last().0@);
        assert(map_of(upd) == map_of(entries.drop_last().update(i, e)).insert(
            entries.last().0@,
            entries.last().1@,
        ));
        assert(map_of(entries.drop_last()).insert(e.0@, e.1@).insert(
            entries.last().0@,
            entries.last().1@,
        ) =~= map_of(entries).insert(e.0@, e.1@));
    }
}

/// Appending an entry is a map insert.
pub proof fn lemma_map_of_push<V: View>(entries: Seq<(String, V)>, e: (String, V))
    ensures
        map_of(entries.push(e)) == map_of(entries).insert(e.0@, e.1@),
        unique_keys(entries) && (forall|i: int|
            0 <= i < entries.len() ==> entries[i].0@ != e.0@) ==> unique_keys(entries.push(e)),
{
    let p = entries.push(e);
    assert(p.drop_last() =~= entries);
    assert(p.last() == e);
    if unique_keys(entries) && (forall|i: int| 0 <= i < entries.len() ==> entries[i].0@ != e.0@) {
        assert forall|i: int, j: int| 0 <= i < j < p.len() implies p[i].0@ != p[j].0@ by {
            if j < p.len() - 1 {
                assert(p[i] == entries[i] && p[j] == entries[j]);
            } else {
                assert(p[i] == entries[i] && p[j] == e);
            }
        }
    }
}

/// The map's domain is finite, and with distinct keys it has exactly one
/// element per entry.
pub proof fn lemma_map_of_len<V: View>(entries: Seq<(String, V)>)
    ensures
        map_of(entries).dom().finite(),
        unique_keys(entries) ==> map_of(entries).dom().len() == entries.len(),
    decreases entries.len(),
{
    if entries.len() == 0 {
        assert(map_of(entries).dom() =~= Set::<Seq<char>>::empty());
    } else {
        lemma_map_of_len(entries.drop_last());
        assert(map_of(entries).dom() =~= map_of(entries.drop_last()).dom().insert(
            entries.last().0@,
        ));
        if unique_keys(entries) {
            assert(unique_keys(entries.drop_last()));
            lemma_map_of_contains(entries.drop_last(), entries.last().0@);
            assert(forall|i: int|
                0 <= i < entries.len() - 1 ==> #[trigger] entries.drop_last()[i] == entries[i]);
            assert(!map_of(entries.drop_last()).dom().contains(entries.last().0@));
        }
    }
}

/// Position of the first entry whose key equals `key`, if any.
pub fn find_entry<V: View>(entries: &Vec<(String, V)>, key: &str) -> (r: Option<usize>)
    ensures
        match r {
            Some(i) => 0 <= i < entries@.len() && entries@[i as int].0@ == key@,
            None => forall|i: int| 0 <= i < entries@.len() ==> entries@[i].0@ != key@,
        },
{
    let n = entries.len();
    let mut i: usize = 0;
    while i < n
        invariant
            0 <= i <= n,
            n == entries@.len(),
            forall|j: int| 0 <= j < i ==> entries@[j].0@ != key@,
        decreases n - i,
    {
        if str_eq(entries[i].0.as_str(), key) {
            return Some(i);
        }
        i = i + 1;
    }
    None
}

} // verus!
