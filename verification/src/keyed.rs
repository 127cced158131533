//! Lists whose items are found by a key, read as maps.

use vstd::prelude::*;

verus! {

/// True where the keys of the items differ from one another.
pub open spec fn distinct<T>(s: Seq<T>, key: spec_fn(T) -> Seq<char>) -> bool {
    forall|i: int, j: int| 0 <= i < j < s.len() ==> key(#[trigger] s[i]) != key(#[trigger] s[j])
}

/// True where some item has the key `k`.
pub open spec fn present<T>(s: Seq<T>, key: spec_fn(T) -> Seq<char>, k: Seq<char>) -> bool {
    exists|i: int| 0 <= i < s.len() && key(#[trigger] s[i]) == k
}

/// The position of an item with the key `k`.
pub open spec fn position<T>(s: Seq<T>, key: spec_fn(T) -> Seq<char>, k: Seq<char>) -> int {
    choose|i: int| 0 <= i < s.len() && key(#[trigger] s[i]) == k
}

/// The map from each key to what its item stands for.
pub open spec fn keyed<T, V>(s: Seq<T>, key: spec_fn(T) -> Seq<char>, val: spec_fn(T) -> V) -> Map<
    Seq<char>,
    V,
> {
    Map::new(|k: Seq<char>| present(s, key, k), |k: Seq<char>| val(s[position(s, key, k)]))
}

/// Each item stands under its key.
pub proof fn lemma_keyed_at<T, V>(
    s: Seq<T>,
    key: spec_fn(T) -> Seq<char>,
    val: spec_fn(T) -> V,
    i: int,
)
    requires
        distinct(s, key),
        0 <= i < s.len(),
    ensures
        keyed(s, key, val).contains_key(key(s[i])),
        keyed(s, key, val)[key(s[i])] == val(s[i]),
        position(s, key, key(s[i])) == i,
{
    let k = key(s[i]);
    assert(present(s, key, k));
    let j = position(s, key, k);
    if j < i {
        assert(key(s[j]) != key(s[i]));
    } else if i < j {
        assert(key(s[i]) != key(s[j]));
    }
}

/// Putting another item with the same key in an item's place changes the
/// map under that key only.
pub proof fn lemma_keyed_update<T, V>(
    s: Seq<T>,
    key: spec_fn(T) -> Seq<char>,
    val: spec_fn(T) -> V,
    i: int,
    item: T,
)
    requires
        distinct(s, key),
        0 <= i < s.len(),
        key(item) == key(s[i]),
    ensures
        distinct(s.update(i, item), key),
        keyed(s.update(i, item), key, val) == keyed(s, key, val).insert(key(item), val(item)),
{
    let t = s.update(i, item);
    assert forall|a: int, b: int| 0 <= a < b < t.len() implies key(#[trigger] t[a]) != key(
        #[trigger] t[b],
    ) by {
        assert(key(s[a]) != key(s[b]));
    }
    assert forall|k: Seq<char>| present(t, key, k) <==> present(s, key, k) by {
        if present(t, key, k) {
            let a = position(t, key, k);
            assert(key(s[a]) == k);
        }
        if present(s, key, k) {
            let a = position(s, key, k);
            assert(key(t[a]) == k);
        }
    }
    assert forall|k: Seq<char>| present(t, key, k) implies #[trigger] keyed(t, key, val)[k] == keyed(
        s,
        key,
        val,
    ).insert(key(item), val(item))[k] by {
        let a = position(t, key, k);
        lemma_keyed_at(t, key, val, a);
        assert(key(s[a]) == k);
        lemma_keyed_at(s, key, val, a);
    }
    assert(keyed(t, key, val) =~= keyed(s, key, val).insert(key(item), val(item)));
}

/// Adding an item under a key that no item has adds that key to the map.
pub proof fn lemma_keyed_push<T, V>(
    s: Seq<T>,
    key: spec_fn(T) -> Seq<char>,
    val: spec_fn(T) -> V,
    item: T,
)
    requires
        distinct(s, key),
        !present(s, key, key(item)),
    ensures
        distinct(s.push(item), key),
        keyed(s.push(item), key, val) == keyed(s, key, val).insert(key(item), val(item)),
{
    let t = s.push(item);
    assert forall|a: int, b: int| 0 <= a < b < t.len() implies key(#[trigger] t[a]) != key(
        #[trigger] t[b],
    ) by {
        assert(t[a] == s[a]);
        if b < s.len() {
            assert(t[b] == s[b]);
            assert(key(s[a]) != key(s[b]));
        } else {
            assert(key(s[a]) != key(item));
        }
    }
    assert forall|k: Seq<char>| present(t, key, k) <==> (present(s, key, k) || k == key(item)) by {
        if present(t, key, k) {
            let a = position(t, key, k);
            if a < s.len() {
                assert(key(s[a]) == k);
            }
        }
        if present(s, key, k) {
            let a = position(s, key, k);
            assert(key(t[a]) == k);
        }
        if k == key(item) {
            assert(key(t[s.len() as int]) == k);
        }
    }
    assert forall|k: Seq<char>| present(t, key, k) implies #[trigger] keyed(t, key, val)[k] == keyed(
        s,
        key,
        val,
    ).insert(key(item), val(item))[k] by {
        let a = position(t, key, k);
        lemma_keyed_at(t, key, val, a);
        if a < s.len() {
            assert(key(s[a]) == k);
            lemma_keyed_at(s, key, val, a);
        }
    }
    assert(keyed(t, key, val) =~= keyed(s, key, val).insert(key(item), val(item)));
}

/// A list stands for a map with finitely many keys.
pub proof fn lemma_keyed_finite<T, V>(s: Seq<T>, key: spec_fn(T) -> Seq<char>, val: spec_fn(T) -> V)
    ensures
        keyed(s, key, val).dom().finite(),
{
    let keys = s.map_values(key);
    vstd::seq_lib::seq_to_set_is_finite(keys);
    assert(keyed(s, key, val).dom() =~= keys.to_set()) by {
        assert forall|k: Seq<char>| keyed(s, key, val).dom().contains(k) <==> keys.to_set().contains(
            k,
        ) by {
            if present(s, key, k) {
                let i = position(s, key, k);
                assert(keys[i] == k);
            }
            if keys.contains(k) {
                let i = choose|i: int| 0 <= i < keys.len() && keys[i] == k;
                assert(key(s[i]) == k);
            }
        }
    }
}

/// A list read backwards stands for the same map, where the keys differ
/// from one another.
pub proof fn lemma_keyed_reverse<T, V>(s: Seq<T>, key: spec_fn(T) -> Seq<char>, val: spec_fn(T) -> V)
    requires
        distinct(s, key),
    ensures
        distinct(s.reverse(), key),
        keyed(s.reverse(), key, val) == keyed(s, key, val),
{
    let r = s.reverse();
    assert forall|a: int, b: int| 0 <= a < b < r.len() implies key(#[trigger] r[a]) != key(
        #[trigger] r[b],
    ) by {
        assert(key(s[s.len() - 1 - b]) != key(s[s.len() - 1 - a]));
    }
    assert forall|k: Seq<char>| present(r, key, k) <==> present(s, key, k) by {
        if present(r, key, k) {
            let i = position(r, key, k);
            assert(key(s[s.len() - 1 - i]) == k);
        }
        if present(s, key, k) {
            let i = position(s, key, k);
            assert(key(r[s.len() - 1 - i]) == k);
        }
    }
    assert forall|k: Seq<char>| present(r, key, k) implies #[trigger] keyed(r, key, val)[k] == keyed(
        s,
        key,
        val,
    )[k] by {
        let i = position(r, key, k);
        lemma_keyed_at(r, key, val, i);
        assert(key(s[s.len() - 1 - i]) == k);
        lemma_keyed_at(s, key, val, s.len() - 1 - i);
    }
    assert(keyed(r, key, val) =~= keyed(s, key, val));
}

/// The empty list stands for the empty map.
pub proof fn lemma_keyed_empty<T, V>(key: spec_fn(T) -> Seq<char>, val: spec_fn(T) -> V)
    ensures
        keyed(Seq::<T>::empty(), key, val) == Map::<Seq<char>, V>::empty(),
        distinct(Seq::<T>::empty(), key),
{
    assert(keyed(Seq::<T>::empty(), key, val) =~= Map::<Seq<char>, V>::empty());
}

} // verus!
