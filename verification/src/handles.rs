//! Ordered maps from keys to handles.
//!
//! Where the proxy keeps services or statistics by key, it does so in a map of the `indexmap`
//! crate. The map holds numbers that stand for the keys and for what is kept.
use indexmap::IndexMap;
use vstd::prelude::*;

verus! {

/// A map from keys to handles.
pub type Handles = IndexMap<u64, u64>;

/// The entries of a map, in order.
pub uninterp spec fn entries_of(
    map: indexmap::IndexMap<u64, u64, std::hash::RandomState>,
) -> Seq<(u64, u64)>;

/// Whether the entry of a key is at a given place.
pub open spec fn is_at<A>(entries: Seq<(u64, A)>, key: u64, i: int) -> bool {
    0 <= i < entries.len() && entries[i].0 == key
}

/// Where the entry of a key is, if there is one.
pub open spec fn place_of<A>(entries: Seq<(u64, A)>, key: u64) -> Option<int> {
    if exists|i: int| is_at(entries, key, i) {
        Some(choose|i: int| is_at(entries, key, i))
    } else {
        None
    }
}

/// The entries after one is set: it takes the place of the one that the key had, or comes last.
pub open spec fn with_entry<A>(entries: Seq<(u64, A)>, key: u64, value: A) -> Seq<(u64, A)> {
    match place_of(entries, key) {
        Some(i) => entries.update(i, (key, value)),
        None => entries.push((key, value)),
    }
}

/// The entries after a key is removed: the last entry takes its place.
pub open spec fn without_entry(entries: Seq<(u64, u64)>, key: u64) -> Seq<(u64, u64)> {
    match place_of(entries, key) {
        Some(i) => entries.update(i, entries.last()).drop_last(),
        None => entries,
    }
}

/// No key occurs twice.
pub open spec fn distinct<A>(entries: Seq<(u64, A)>) -> bool {
    forall|i: int, j: int|
        0 <= i < j < entries.len() ==> (#[trigger] entries[i]).0 != (#[trigger] entries[j]).0
}

/// The handles by key.
pub open spec fn by_key(entries: Seq<(u64, u64)>) -> Map<u64, u64> {
    Map::new(
        |key: u64| place_of(entries, key) is Some,
        |key: u64| entries[place_of(entries, key)->0].1,
    )
}

/// Calls `indexmap::IndexMap::new`, which makes a map without entries.
#[verifier::external_body]
pub(crate) fn no_handles() -> (map: Handles)
    ensures
        entries_of(map).len() == 0,
{
    IndexMap::new()
}

/// Calls `indexmap::IndexMap::insert`: the value of a key that is there already is replaced in
/// its place, and a new key comes last. The previous value is returned.
#[verifier::external_body]
pub(crate) fn set_handle(map: &mut Handles, key: u64, handle: u64) -> (previous: Option<u64>)
    ensures
        entries_of(*final(map)) == with_entry(entries_of(*old(map)), key, handle),
        previous == match place_of(entries_of(*old(map)), key) {
            Some(i) => Some(entries_of(*old(map))[i].1),
            None => None,
        },
{
    map.insert(key, handle)
}

/// Calls `indexmap::IndexMap::remove`, which is `swap_remove`: the last entry takes the place
/// of the one that is removed, whose value is returned.
#[verifier::external_body]
pub(crate) fn remove_handle(map: &mut Handles, key: u64) -> (previous: Option<u64>)
    ensures
        entries_of(*final(map)) == without_entry(entries_of(*old(map)), key),
        previous == match place_of(entries_of(*old(map)), key) {
            Some(i) => Some(entries_of(*old(map))[i].1),
            None => None,
        },
{
    map.remove(&key)
}

/// Calls `indexmap::IndexMap::entry` and `indexmap::map::Entry::or_insert`: the value of a key
/// that is there already is returned, and otherwise a new one is inserted last and returned.
#[verifier::external_body]
pub(crate) fn handle_or_insert(map: &mut Handles, key: u64, handle: u64) -> (r: u64)
    ensures
        match place_of(entries_of(*old(map)), key) {
            Some(i) => {
                &&& entries_of(*final(map)) == entries_of(*old(map))
                &&& r == entries_of(*old(map))[i].1
            },
            None => {
                &&& entries_of(*final(map)) == entries_of(*old(map)).push((key, handle))
                &&& r == handle
            },
        },
{
    *map.entry(key).or_insert(handle)
}

/// Calls `indexmap::IndexMap::iter`, which goes through the entries in order. They are copied
/// out.
#[verifier::external_body]
pub(crate) fn list_handles(map: &Handles) -> (list: Vec<(u64, u64)>)
    ensures
        list@ == entries_of(*map),
{
    map.iter().map(|(key, handle)| (*key, *handle)).collect()
}

/// Where the keys are distinct, the place of a key is the only one.
pub proof fn lemma_place<A>(entries: Seq<(u64, A)>, key: u64, i: int)
    requires
        distinct(entries),
        is_at(entries, key, i),
    ensures
        place_of(entries, key) == Some(i),
{
    let p = choose|p: int| is_at(entries, key, p);
    assert(is_at(entries, key, p));
    if p < i {
        assert(entries[p].0 != entries[i].0);
    } else if i < p {
        assert(entries[i].0 != entries[p].0);
    }
}

/// Where the same keys are in the same places, a key has the same place.
pub proof fn lemma_same_keys<A, B>(a: Seq<(u64, A)>, b: Seq<(u64, B)>, key: u64)
    requires
        distinct(a),
        a.len() == b.len(),
        forall|i: int| 0 <= i < a.len() ==> (#[trigger] a[i]).0 == b[i].0,
    ensures
        place_of(a, key) == place_of(b, key),
        distinct(b),
{
    assert forall|i: int, j: int| 0 <= i < j < b.len() implies (#[trigger] b[i]).0 != (
    #[trigger] b[j]).0 by {
        assert(a[i].0 != a[j].0);
    }
    if place_of(a, key) is Some {
        let i = place_of(a, key)->0;
        assert(is_at(a, key, i));
        assert(is_at(b, key, i));
        lemma_place(b, key, i);
    } else if place_of(b, key) is Some {
        let i = place_of(b, key)->0;
        assert(is_at(b, key, i));
        assert(a[i].0 == b[i].0);
        assert(is_at(a, key, i));
    }
}

/// Setting an entry keeps keys distinct, and the key has a place then.
pub proof fn lemma_set_entry<A>(entries: Seq<(u64, A)>, key: u64, value: A)
    requires
        distinct(entries),
    ensures
        distinct(with_entry(entries, key, value)),
        place_of(with_entry(entries, key, value), key) matches Some(i) && with_entry(
            entries,
            key,
            value,
        )[i] == (key, value),
{
    let new = with_entry(entries, key, value);
    let p = match place_of(entries, key) {
        Some(p) => p,
        None => entries.len() as int,
    };
    assert(place_of(entries, key) is Some ==> is_at(entries, key, p));
    assert forall|i: int, j: int| 0 <= i < j < new.len() implies (#[trigger] new[i]).0 != (
    #[trigger] new[j]).0 by {
        assert(!is_at(entries, key, i) || i == p || place_of(entries, key) is Some);
        if j < entries.len() {
            assert(entries[i].0 != entries[j].0);
        }
    }
    assert(is_at(new, key, p));
    lemma_place(new, key, p);
}

/// Setting an entry concerns its key only.
pub proof fn lemma_other_entry<A>(entries: Seq<(u64, A)>, key: u64, value: A, other: u64)
    requires
        distinct(entries),
        other != key,
    ensures
        place_of(with_entry(entries, key, value), other) == place_of(entries, other),
        place_of(entries, other) matches Some(i) ==> with_entry(entries, key, value)[i]
            == entries[i],
{
    let new = with_entry(entries, key, value);
    lemma_set_entry(entries, key, value);
    assert(place_of(entries, key) is Some ==> is_at(entries, key, place_of(entries, key)->0));
    if place_of(entries, other) is Some {
        let i = place_of(entries, other)->0;
        assert(is_at(entries, other, i));
        assert(is_at(new, other, i));
        lemma_place(new, other, i);
    } else if place_of(new, other) is Some {
        let i = place_of(new, other)->0;
        assert(is_at(new, other, i));
        assert(is_at(entries, other, i));
    }
}

/// Setting a handle keeps keys distinct, and sets it for that key only.
pub proof fn lemma_with_entry(entries: Seq<(u64, u64)>, key: u64, handle: u64)
    requires
        distinct(entries),
    ensures
        distinct(with_entry(entries, key, handle)),
        by_key(with_entry(entries, key, handle)) == by_key(entries).insert(key, handle),
{
    let new = with_entry(entries, key, handle);
    match place_of(entries, key) {
        Some(p) => {
            assert(is_at(entries, key, p));
            assert forall|i: int, j: int| 0 <= i < j < new.len() implies (#[trigger] new[i]).0 != (
            #[trigger] new[j]).0 by {
                assert(entries[i].0 != entries[j].0);
            }
        },
        None => {
            assert forall|i: int, j: int| 0 <= i < j < new.len() implies (#[trigger] new[i]).0 != (
            #[trigger] new[j]).0 by {
                assert(!is_at(entries, key, i));
                if j < entries.len() {
                    assert(entries[i].0 != entries[j].0);
                }
            }
        },
    }
    assert forall|k: u64| #[trigger]
        by_key(new).contains_key(k) == by_key(entries).insert(key, handle).contains_key(k) && (
        by_key(new).contains_key(k) ==> by_key(new)[k] == by_key(entries).insert(
            key,
            handle,
        )[k]) by {
        if k == key {
            let p = match place_of(entries, key) {
                Some(p) => p,
                None => entries.len() as int,
            };
            assert(place_of(entries, key) is Some ==> is_at(entries, key, p));
            assert(is_at(new, key, p));
            lemma_place(new, key, p);
        } else if place_of(entries, k) is Some {
            let p = place_of(entries, k)->0;
            assert(is_at(entries, k, p));
            assert(place_of(entries, key) is Some ==> is_at(entries, key, place_of(entries, key)->0));
            assert(is_at(new, k, p));
            lemma_place(new, k, p);
        } else {
            if place_of(new, k) is Some {
                let p = place_of(new, k)->0;
                assert(is_at(new, k, p));
                assert(is_at(entries, k, p));
            }
        }
    }
    assert(by_key(new) =~= by_key(entries).insert(key, handle));
}

/// Removing a key keeps keys distinct, and removes no other.
pub proof fn lemma_without_entry(entries: Seq<(u64, u64)>, key: u64)
    requires
        distinct(entries),
    ensures
        distinct(without_entry(entries, key)),
        by_key(without_entry(entries, key)) == by_key(entries).remove(key),
{
    let new = without_entry(entries, key);
    match place_of(entries, key) {
        Some(p) => {
            assert(is_at(entries, key, p));
            let n = entries.len() - 1;
            assert forall|i: int, j: int| 0 <= i < j < new.len() implies (#[trigger] new[i]).0 != (
            #[trigger] new[j]).0 by {
                assert(entries[i].0 != entries[j].0);
                assert(entries[i].0 != entries[n].0);
                assert(entries[j].0 != entries[n].0);
            }
            assert forall|k: u64| #[trigger]
                by_key(new).contains_key(k) == by_key(entries).remove(key).contains_key(k) && (
                by_key(new).contains_key(k) ==> by_key(new)[k] == by_key(entries).remove(
                    key,
                )[k]) by {
                if place_of(new, k) is Some {
                    let q = place_of(new, k)->0;
                    assert(is_at(new, k, q));
                    let from = if q == p {
                        n
                    } else {
                        q
                    };
                    assert(is_at(entries, k, from));
                    lemma_place(entries, k, from);
                    if k == key {
                        lemma_place(entries, key, from);
                        assert(from == p);
                    }
                } else if place_of(entries, k) is Some && k != key {
                    let q = place_of(entries, k)->0;
                    assert(is_at(entries, k, q));
                    let to = if q == n {
                        p
                    } else {
                        q
                    };
                    assert(is_at(new, k, to));
                }
            }
            assert(by_key(new) =~= by_key(entries).remove(key));
        },
        None => {
            assert(by_key(new) =~= by_key(entries).remove(key));
        },
    }
}

} // verus!
