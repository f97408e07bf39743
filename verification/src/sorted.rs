//! Key-ordered sequences: the shared helper behind every ordered collection
//! of the document (movies by provider ID, ratings by date, page counts by
//! date, tags by tag ID).
//!
//! A sequence of `SortKey` elements kept strictly increasing by key behaves
//! as a finite map from keys to elements; `key_map` is that map, and the
//! lemmas here say how inserting, removing and replacing an element act on
//! it.

use vstd::prelude::*;

verus! {

/// An element of a key-ordered sequence: exposes the unsigned key that the
/// sequence is ordered by.
pub trait SortKey: Sized {
    /// The element's key, at the specification level.
    spec fn skey(&self) -> u64;

    /// The element's key.
    fn key(&self) -> (k: u64)
        ensures
            k == self.skey(),
    ;
}

/// The sequence is strictly increasing by key: sorted, with no duplicate
/// keys.
pub open spec fn sorted_by_key<T: SortKey>(s: Seq<T>) -> bool {
    forall|i: int, j: int|
        0 <= i < j < s.len() ==> #[trigger] s[i].skey() < #[trigger] s[j].skey()
}

/// Some element of `s` carries the key `k`.
pub open spec fn has_key<T: SortKey>(s: Seq<T>, k: u64) -> bool {
    exists|i: int| 0 <= i < s.len() && #[trigger] s[i].skey() == k
}

/// The index of the element carrying key `k` (meaningful when `has_key`
/// holds and keys are unique).
pub open spec fn index_of_key<T: SortKey>(s: Seq<T>, k: u64) -> int {
    choose|i: int| 0 <= i < s.len() && #[trigger] s[i].skey() == k
}

/// The finite map from keys to elements that the sequence represents.
pub open spec fn key_map<T: SortKey>(s: Seq<T>) -> Map<u64, T> {
    Map::new(|k: u64| has_key(s, k), |k: u64| s[index_of_key(s, k)])
}

/// In a sequence with strictly increasing keys, the element at a key is the
/// one at its (unique) index.
pub proof fn lemma_key_at<T: SortKey>(s: Seq<T>, i: int, k: u64)
    requires
        sorted_by_key(s),
        0 <= i < s.len(),
        s[i].skey() == k,
    ensures
        has_key(s, k),
        index_of_key(s, k) == i,
        key_map(s)[k] == s[i],
{
    assert(has_key(s, k));
    let j = index_of_key(s, k);
    assert(0 <= j < s.len() && s[j].skey() == k);
    if i < j {
        assert(s[i].skey() < s[j].skey());
    } else if j < i {
        assert(s[j].skey() < s[i].skey());
    }
}

/// Where a binary search for a key landed.
pub enum KeyPos {
    /// The key is present, at this index.
    Found(usize),
    /// The key is absent; an element with it would belong at this index.
    Missing(usize),
}

/// Binary search for `k` in a sequence with strictly increasing keys.
pub fn find_key<T: SortKey>(v: &Vec<T>, k: u64) -> (r: KeyPos)
    requires
        sorted_by_key(v@),
    ensures
        match r {
            KeyPos::Found(i) => i < v@.len() && v@[i as int].skey() == k,
            KeyPos::Missing(i) => i <= v@.len() && !has_key(v@, k) && (forall|j: int|
                0 <= j < i ==> #[trigger] v@[j].skey() < k) && (forall|j: int|
                i <= j < v@.len() ==> #[trigger] v@[j].skey() > k),
        },
{
    let mut lo: usize = 0;
    let mut hi: usize = v.len();
    while lo < hi
        invariant
            lo <= hi <= v@.len(),
            sorted_by_key(v@),
            forall|j: int| 0 <= j < lo ==> #[trigger] v@[j].skey() < k,
            forall|j: int| hi <= j < v@.len() ==> #[trigger] v@[j].skey() > k,
        decreases hi - lo,
    {
        let mid = lo + (hi - lo) / 2;
        let mk = v[mid].key();
        if mk < k {
            lo = mid + 1;
        } else if mk > k {
            hi = mid;
        } else {
            return KeyPos::Found(mid);
        }
    }
    KeyPos::Missing(lo)
}

/// Inserting an element between the keys below it and the keys above it
/// keeps the sequence ordered and adds exactly its key to the map.
pub proof fn lemma_sorted_insert<T: SortKey>(s: Seq<T>, i: int, x: T)
    requires
        sorted_by_key(s),
        0 <= i <= s.len(),
        forall|j: int| 0 <= j < i ==> #[trigger] s[j].skey() < x.skey(),
        forall|j: int| i <= j < s.len() ==> #[trigger] s[j].skey() > x.skey(),
    ensures
        sorted_by_key(s.insert(i, x)),
        !has_key(s, x.skey()),
        key_map(s.insert(i, x)) =~= key_map(s).insert(x.skey(), x),
{
    let t = s.insert(i, x);
    s.insert_ensures(i, x);
    assert forall|a: int, b: int| 0 <= a < b < t.len() implies #[trigger] t[a].skey()
        < #[trigger] t[b].skey() by {
        if a < i && b < i {
        } else if a < i && b == i {
        } else if a < i && b > i {
        } else if a == i {
        } else {
        }
    }
    assert forall|k: u64| key_map(t).dom().contains(k) <==> key_map(s).insert(
        x.skey(),
        x,
    ).dom().contains(k) by {
        if k == x.skey() {
            lemma_key_at(t, i, k);
        } else {
            if has_key(s, k) {
                let j = choose|j: int| 0 <= j < s.len() && #[trigger] s[j].skey() == k;
                if j < i {
                    assert(t[j].skey() == k);
                } else {
                    assert(t[j + 1].skey() == k);
                }
            }
            if has_key(t, k) {
                let j = choose|j: int| 0 <= j < t.len() && #[trigger] t[j].skey() == k;
                if j < i {
                    assert(s[j].skey() == k);
                } else {
                    assert(j != i);
                    assert(s[j - 1].skey() == k);
                }
            }
        }
    }
    assert forall|k: u64| #[trigger] key_map(t).dom().contains(k) implies key_map(t)[k]
        == key_map(s).insert(x.skey(), x)[k] by {
        if k == x.skey() {
            lemma_key_at(t, i, k);
        } else {
            let j = choose|j: int| 0 <= j < t.len() && #[trigger] t[j].skey() == k;
            if j < i {
                lemma_key_at(t, j, k);
                lemma_key_at(s, j, k);
            } else {
                assert(j != i);
                lemma_key_at(t, j, k);
                lemma_key_at(s, j - 1, k);
            }
        }
    }
}

/// Removing the element at an index keeps the sequence ordered and removes
/// exactly its key from the map.
pub proof fn lemma_sorted_remove<T: SortKey>(s: Seq<T>, i: int)
    requires
        sorted_by_key(s),
        0 <= i < s.len(),
    ensures
        sorted_by_key(s.remove(i)),
        key_map(s.remove(i)) =~= key_map(s).remove(s[i].skey()),
{
    let t = s.remove(i);
    s.remove_ensures(i);
    let k0 = s[i].skey();
    assert forall|a: int, b: int| 0 <= a < b < t.len() implies #[trigger] t[a].skey()
        < #[trigger] t[b].skey() by {
        if a < i && b < i {
        } else if a < i {
            assert(t[b] == s[b + 1]);
        } else {
            assert(t[a] == s[a + 1]);
            assert(t[b] == s[b + 1]);
        }
    }
    assert forall|k: u64| key_map(t).dom().contains(k) <==> key_map(s).remove(k0).dom().contains(
        k,
    ) by {
        if has_key(t, k) {
            let j = choose|j: int| 0 <= j < t.len() && #[trigger] t[j].skey() == k;
            if j < i {
                lemma_key_at(s, j, k);
            } else {
                lemma_key_at(s, j + 1, k);
            }
        }
        if has_key(s, k) && k != k0 {
            let j = choose|j: int| 0 <= j < s.len() && #[trigger] s[j].skey() == k;
            assert(j != i);
            if j < i {
                assert(t[j].skey() == k);
            } else {
                assert(t[j - 1].skey() == k);
            }
        }
    }
    assert forall|k: u64| #[trigger] key_map(t).dom().contains(k) implies key_map(t)[k]
        == key_map(s).remove(k0)[k] by {
        let j = choose|j: int| 0 <= j < t.len() && #[trigger] t[j].skey() == k;
        lemma_key_at(t, j, k);
        if j < i {
            lemma_key_at(s, j, k);
        } else {
            lemma_key_at(s, j + 1, k);
        }
    }
}

/// A sequence with strictly increasing keys is determined by its map:
/// two such sequences representing the same map are the same sequence.
pub proof fn lemma_key_map_determines_seq<T: SortKey>(s1: Seq<T>, s2: Seq<T>)
    requires
        sorted_by_key(s1),
        sorted_by_key(s2),
        key_map(s1) == key_map(s2),
    ensures
        s1 == s2,
    decreases s1.len(),
{
    if s1.len() == 0 {
        if s2.len() > 0 {
            lemma_key_at(s2, 0, s2[0].skey());
            assert(key_map(s2).dom().contains(s2[0].skey()));
            assert(key_map(s1).dom().contains(s2[0].skey()));
            assert(has_key(s1, s2[0].skey()));
            let i = choose|i: int| 0 <= i < s1.len() && #[trigger] s1[i].skey() == s2[0].skey();
            assert(false);
        }
        assert(s1 =~= s2);
    } else if s2.len() == 0 {
        lemma_key_at(s1, 0, s1[0].skey());
        assert(key_map(s1).dom().contains(s1[0].skey()));
        assert(key_map(s2).dom().contains(s1[0].skey()));
        assert(has_key(s2, s1[0].skey()));
        let i = choose|i: int| 0 <= i < s2.len() && #[trigger] s2[i].skey() == s1[0].skey();
        assert(false);
    } else {
        let n1 = s1.len() - 1;
        let n2 = s2.len() - 1;
        let k1 = s1[n1].skey();
        let k2 = s2[n2].skey();
        lemma_key_at(s1, n1, k1);
        lemma_key_at(s2, n2, k2);
        assert(key_map(s1).dom().contains(k1));
        assert(key_map(s2).dom().contains(k1));
        assert(has_key(s2, k1));
        let j = choose|j: int| 0 <= j < s2.len() && #[trigger] s2[j].skey() == k1;
        assert(k1 <= k2) by {
            if j < n2 {
                assert(s2[j].skey() < s2[n2].skey());
            }
        }
        assert(key_map(s2).dom().contains(k2));
        assert(key_map(s1).dom().contains(k2));
        assert(has_key(s1, k2));
        let i = choose|i: int| 0 <= i < s1.len() && #[trigger] s1[i].skey() == k2;
        assert(k2 <= k1) by {
            if i < n1 {
                assert(s1[i].skey() < s1[n1].skey());
            }
        }
        assert(k1 == k2);
        lemma_key_at(s2, n2, k1);
        assert(s1[n1] == key_map(s1)[k1]);
        assert(s2[n2] == key_map(s2)[k1]);
        lemma_sorted_remove(s1, n1);
        lemma_sorted_remove(s2, n2);
        assert(s1.remove(n1) =~= s1.drop_last());
        assert(s2.remove(n2) =~= s2.drop_last());
        assert(key_map(s1.drop_last()) =~= key_map(s2.drop_last()));
        lemma_key_map_determines_seq(s1.drop_last(), s2.drop_last());
        assert forall|x: int| 0 <= x < s1.len() implies s1[x] == s2[x] by {
            if x < n1 {
                assert(s1.drop_last()[x] == s2.drop_last()[x]);
            }
        }
        assert(s1 =~= s2);
    }
}

/// Replacing the element at an index with one carrying the same key keeps
/// the sequence ordered and updates exactly that key in the map.
pub proof fn lemma_sorted_update<T: SortKey>(s: Seq<T>, i: int, x: T)
    requires
        sorted_by_key(s),
        0 <= i < s.len(),
        s[i].skey() == x.skey(),
    ensures
        sorted_by_key(s.update(i, x)),
        key_map(s.update(i, x)) =~= key_map(s).insert(x.skey(), x),
{
    let t = s.update(i, x);
    assert forall|a: int, b: int| 0 <= a < b < t.len() implies #[trigger] t[a].skey()
        < #[trigger] t[b].skey() by {}
    assert forall|k: u64| key_map(t).dom().contains(k) <==> key_map(s).insert(
        x.skey(),
        x,
    ).dom().contains(k) by {
        if has_key(t, k) {
            let j = choose|j: int| 0 <= j < t.len() && #[trigger] t[j].skey() == k;
            assert(s[j].skey() == k);
        }
        if has_key(s, k) {
            let j = choose|j: int| 0 <= j < s.len() && #[trigger] s[j].skey() == k;
            assert(t[j].skey() == k);
        }
    }
    assert forall|k: u64| #[trigger] key_map(t).dom().contains(k) implies key_map(t)[k]
        == key_map(s).insert(x.skey(), x)[k] by {
        let j = choose|j: int| 0 <= j < t.len() && #[trigger] t[j].skey() == k;
        lemma_key_at(t, j, k);
        if k == x.skey() {
            assert(j == i) by {
                if j < i {
                    assert(t[j].skey() < t[i].skey());
                } else if i < j {
                    assert(t[i].skey() < t[j].skey());
                }
            }
        } else {
            assert(j != i);
            lemma_key_at(s, j, k);
        }
    }
}

} // verus!
