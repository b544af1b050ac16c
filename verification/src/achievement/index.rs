//! Secondary indexes: for each identity, the ordered list of credential ids
//! filed under it.

use std::collections::HashMap;
use vstd::prelude::*;

verus! {

/// The ids filed under `key`; empty where the index has no bucket for it.
pub open spec fn bucket(index: Map<u128, Seq<u128>>, key: u128) -> Seq<u128> {
    if index.contains_key(key) {
        index[key]
    } else {
        Seq::empty()
    }
}

/// The index after `id` is appended to the bucket of `key`.
pub open spec fn index_with(index: Map<u128, Seq<u128>>, key: u128, id: u128) -> Map<
    u128,
    Seq<u128>,
> {
    index.insert(key, bucket(index, key).push(id))
}

/// `ids` with the first occurrence of `id` taken out.
pub open spec fn without_first(ids: Seq<u128>, id: u128) -> Seq<u128>
    decreases ids.len(),
{
    if ids.len() == 0 {
        ids
    } else if ids[0] == id {
        ids.drop_first()
    } else {
        seq![ids[0]] + without_first(ids.drop_first(), id)
    }
}

/// The index after the first occurrence of `id` leaves the bucket of `key`.
/// A bucket that becomes empty stays.
pub open spec fn index_without(index: Map<u128, Seq<u128>>, key: u128, id: u128) -> Map<
    u128,
    Seq<u128>,
> {
    if index.contains_key(key) {
        index.insert(key, without_first(index[key], id))
    } else {
        index
    }
}

/// An index agrees with `keys`, which gives each listed id the identity it
/// belongs under: every id sits in the bucket of its key, every bucket entry
/// is an id with that key, and no bucket lists an id twice.
pub open spec fn index_matches(keys: Map<u128, u128>, index: Map<u128, Seq<u128>>) -> bool {
    &&& forall|id: u128| #[trigger]
        keys.contains_key(id) ==> index.contains_key(keys[id]) && index[keys[id]].contains(id)
    &&& forall|key: u128, j: int|
        index.contains_key(key) && 0 <= j < index[key].len() ==> keys.contains_key(
            #[trigger] index[key][j],
        ) && keys[index[key][j]] == key
    &&& forall|key: u128| #[trigger] index.contains_key(key) ==> index[key].no_duplicates()
}

/// Taking out the entry at the first position that holds `id` is
/// `without_first`.
pub proof fn lemma_without_first_at(ids: Seq<u128>, id: u128, at: int)
    requires
        0 <= at < ids.len(),
        ids[at] == id,
        forall|j: int| 0 <= j < at ==> ids[j] != id,
    ensures
        without_first(ids, id) == ids.remove(at),
    decreases ids.len(),
{
    if at == 0 {
        assert(ids.remove(0) =~= ids.drop_first());
    } else {
        let rest = ids.drop_first();
        lemma_without_first_at(rest, id, at - 1);
        assert(ids.remove(at) =~= seq![ids[0]] + rest.remove(at - 1));
    }
}

/// Where `id` does not occur, nothing is taken out.
pub proof fn lemma_without_first_absent(ids: Seq<u128>, id: u128)
    requires
        !ids.contains(id),
    ensures
        without_first(ids, id) == ids,
    decreases ids.len(),
{
    if ids.len() > 0 {
        let rest = ids.drop_first();
        assert(ids[0] != id);
        assert forall|x: u128| rest.contains(x) implies ids.contains(x) by {
            let j = choose|j: int| 0 <= j < rest.len() && rest[j] == x;
            assert(ids[j + 1] == x);
        }
        lemma_without_first_absent(rest, id);
        assert(seq![ids[0]] + rest =~= ids);
    }
}

/// What `without_first` keeps: nothing new, and from a list without
/// duplicates exactly the other ids, still without duplicates.
pub proof fn lemma_without_first_members(ids: Seq<u128>, id: u128)
    ensures
        forall|x: u128| without_first(ids, id).contains(x) ==> ids.contains(x),
        forall|x: u128| ids.contains(x) && x != id ==> without_first(ids, id).contains(x),
        ids.no_duplicates() ==> without_first(ids, id).no_duplicates() && !without_first(
            ids,
            id,
        ).contains(id),
    decreases ids.len(),
{
    if ids.len() > 0 {
        let out = without_first(ids, id);
        let rest = ids.drop_first();
        let tail = without_first(rest, id);
        lemma_without_first_members(rest, id);
        assert forall|x: u128| rest.contains(x) implies ids.contains(x) by {
            let j = choose|j: int| 0 <= j < rest.len() && rest[j] == x;
            assert(ids[j + 1] == x);
        }
        assert forall|x: u128| ids.contains(x) implies x == ids[0] || rest.contains(x) by {
            let j = choose|j: int| 0 <= j < ids.len() && ids[j] == x;
            if j > 0 {
                assert(rest[j - 1] == x);
            }
        }
        assert forall|x: u128| tail.contains(x) implies x == ids[0] || out.contains(x) by {
            let j = choose|j: int| 0 <= j < tail.len() && tail[j] == x;
            if ids[0] != id {
                assert(out[j + 1] == x);
            }
        }
        assert forall|x: u128| out.contains(x) implies (ids[0] != id && x == ids[0])
            || (if ids[0] == id { rest.contains(x) } else { tail.contains(x) }) by {
            let j = choose|j: int| 0 <= j < out.len() && out[j] == x;
            if ids[0] != id && j > 0 {
                assert(tail[j - 1] == x);
            }
        }
        if ids[0] != id {
            assert(out[0] == ids[0]);
        }
        if ids.no_duplicates() {
            assert(rest.no_duplicates());
            assert(!rest.contains(ids[0])) by {
                if rest.contains(ids[0]) {
                    let j = choose|j: int| 0 <= j < rest.len() && rest[j] == ids[0];
                    assert(ids[j + 1] == ids[0]);
                }
            }
            if ids[0] != id {
                assert forall|i: int, j: int|
                    0 <= i < out.len() && 0 <= j < out.len() && i != j implies out[i]
                    != out[j] by {
                    if i > 0 {
                        assert(tail.contains(tail[i - 1]));
                    }
                    if j > 0 {
                        assert(tail.contains(tail[j - 1]));
                    }
                }
            }
        }
    }
}

/// Filing a fresh id under its key keeps the index in agreement.
pub proof fn lemma_index_with_matches(
    keys: Map<u128, u128>,
    index: Map<u128, Seq<u128>>,
    key: u128,
    id: u128,
)
    requires
        index_matches(keys, index),
        !keys.contains_key(id),
    ensures
        index_matches(keys.insert(id, key), index_with(index, key, id)),
{
    let before = bucket(index, key);
    let after = before.push(id);
    let keys2 = keys.insert(id, key);
    let index2 = index_with(index, key, id);
    assert(after[before.len() as int] == id);
    assert forall|other: u128| #[trigger] keys2.contains_key(other) implies index2.contains_key(
        keys2[other],
    ) && index2[keys2[other]].contains(other) by {
        if other != id && keys[other] == key {
            let j = choose|j: int| 0 <= j < before.len() && before[j] == other;
            assert(after[j] == other);
        }
    }
}

/// Taking a listed id out of the bucket of its key keeps the index in
/// agreement.
pub proof fn lemma_index_without_matches(
    keys: Map<u128, u128>,
    index: Map<u128, Seq<u128>>,
    id: u128,
)
    requires
        index_matches(keys, index),
        keys.contains_key(id),
    ensures
        index_matches(keys.remove(id), index_without(index, keys[id], id)),
{
    let key = keys[id];
    let before = index[key];
    let after = without_first(before, id);
    let keys2 = keys.remove(id);
    let index2 = index_without(index, key, id);
    assert(index.contains_key(key));
    assert(before.no_duplicates());
    lemma_without_first_members(before, id);
    assert forall|other: u128| #[trigger] keys2.contains_key(other) implies index2.contains_key(
        keys2[other],
    ) && index2[keys2[other]].contains(other) by {
        assert(keys.contains_key(other));
    }
    assert forall|k: u128, j: int|
        index2.contains_key(k) && 0 <= j < index2[k].len() implies keys2.contains_key(
        #[trigger] index2[k][j],
    ) && keys2[index2[k][j]] == k by {
        if k == key {
            let x = after[j];
            assert(after.contains(x));
            assert(before.contains(x));
            let i = choose|i: int| 0 <= i < before.len() && before[i] == x;
            assert(keys.contains_key(index[key][i]));
        } else {
            assert(keys.contains_key(index[k][j]));
        }
    }
    assert forall|k: u128| #[trigger] index2.contains_key(k) implies index2[k].no_duplicates() by {
        if k != key {
            assert(index.contains_key(k));
        }
    }
}

/// The buckets of an index held in a hash map.
pub open spec fn buckets_of(index: Map<u128, Vec<u128>>) -> Map<u128, Seq<u128>> {
    index.map_values(|ids: Vec<u128>| ids@)
}

/// Appends `id` to the bucket of `key`, creating the bucket if absent.
pub fn index_push(index: &mut HashMap<u128, Vec<u128>>, key: u128, id: u128)
    ensures
        buckets_of(final(index)@) == index_with(buckets_of(old(index)@), key, id),
{
    broadcast use vstd::std_specs::hash::group_hash_axioms;

    let mut ids = match index.remove(&key) {
        Some(ids) => ids,
        None => Vec::new(),
    };
    ids.push(id);
    index.insert(key, ids);
    assert(buckets_of(index@) =~= index_with(buckets_of(old(index)@), key, id));
}

/// Removes the first occurrence of `id` from the bucket of `key`, if the
/// bucket exists.
pub fn index_remove(index: &mut HashMap<u128, Vec<u128>>, key: u128, id: u128)
    ensures
        buckets_of(final(index)@) == index_without(buckets_of(old(index)@), key, id),
{
    broadcast use vstd::std_specs::hash::group_hash_axioms;

    match index.remove(&key) {
        Some(mut ids) => {
            let ghost before = ids@;
            let mut i: usize = 0;
            let mut found = false;
            while i < ids.len() && !found
                invariant
                    ids@ == before,
                    i <= ids.len(),
                    !found ==> forall|j: int| 0 <= j < i ==> before[j] != id,
                    found ==> i < ids.len() && before[i as int] == id && forall|j: int|
                        0 <= j < i ==> before[j] != id,
                decreases ids.len() - i + (if found { 0int } else { 1int }),
            {
                if ids[i] == id {
                    found = true;
                } else {
                    i += 1;
                }
            }
            if found {
                proof {
                    lemma_without_first_at(before, id, i as int);
                }
                ids.remove(i);
            } else {
                proof {
                    lemma_without_first_absent(before, id);
                }
            }
            index.insert(key, ids);
            assert(buckets_of(index@) =~= index_without(buckets_of(old(index)@), key, id));
        },
        None => {
            assert(buckets_of(index@) =~= buckets_of(old(index)@));
        },
    }
}

} // verus!
