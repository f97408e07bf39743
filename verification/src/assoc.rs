//! Unordered keyed sequences: the helper behind the document's unordered
//! collections (books by identifier, enrichment cache by lookup text).
//!
//! A sequence of pairwise distinct keys behaves as a finite map; the lemmas
//! here say how appending, removing and replacing an element act on it.

use vstd::prelude::*;

use crate::olid::OlId;
use crate::schema::{Book, CacheEntry, books_as_map, books_has, books_index, cache_as_map,
    cache_has, cache_index};

verus! {

/// In a book sequence with pairwise distinct identifiers, the book at an
/// identifier is the one at its (unique) index.
pub proof fn lemma_book_at(s: Seq<Book>, i: int, id: OlId)
    requires
        forall|a: int, b: int|
            0 <= a < b < s.len() ==> (#[trigger] s[a]).olid != (#[trigger] s[b]).olid,
        0 <= i < s.len(),
        s[i].olid == id,
    ensures
        books_has(s, id),
        books_index(s, id) == i,
        books_as_map(s)[id] == s[i],
{
    assert(books_has(s, id));
    let j = books_index(s, id);
    assert(0 <= j < s.len() && s[j].olid == id);
    if i < j {
        assert(s[i].olid != s[j].olid);
    } else if j < i {
        assert(s[j].olid != s[i].olid);
    }
}

/// Appending a book with a fresh identifier keeps identifiers distinct and
/// adds exactly its key to the map.
pub proof fn lemma_books_push(s: Seq<Book>, x: Book)
    requires
        forall|a: int, b: int|
            0 <= a < b < s.len() ==> (#[trigger] s[a]).olid != (#[trigger] s[b]).olid,
        !books_has(s, x.olid),
    ensures
        forall|a: int, b: int|
            0 <= a < b < s.push(x).len() ==> (#[trigger] s.push(x)[a]).olid != (
            #[trigger] s.push(x)[b]).olid,
        books_as_map(s.push(x)) =~= books_as_map(s).insert(x.olid, x),
{
    let t = s.push(x);
    assert forall|a: int, b: int| 0 <= a < b < t.len() implies (#[trigger] t[a]).olid != (
    #[trigger] t[b]).olid by {
        if b == s.len() {
            assert(t[a] == s[a]);
            if t[a].olid == x.olid {
                assert(books_has(s, x.olid));
            }
        }
    }
    assert forall|id: OlId| books_as_map(t).dom().contains(id) <==> books_as_map(s).insert(
        x.olid,
        x,
    ).dom().contains(id) by {
        if books_has(t, id) {
            let j = books_index(t, id);
            if j < s.len() {
                assert(s[j].olid == id);
            }
        }
        if books_has(s, id) {
            let j = books_index(s, id);
            assert(t[j].olid == id);
        }
        if id == x.olid {
            assert(t[s.len() as int].olid == id);
        }
    }
    assert forall|id: OlId| #[trigger] books_as_map(t).dom().contains(id) implies books_as_map(
        t,
    )[id] == books_as_map(s).insert(x.olid, x)[id] by {
        let j = books_index(t, id);
        assert(0 <= j < t.len() && t[j].olid == id);
        lemma_book_at(t, j, id);
        if id == x.olid {
            lemma_book_at(t, s.len() as int, id);
        } else {
            assert(j < s.len());
            lemma_book_at(s, j, id);
        }
    }
}

/// Removing the book at an index keeps identifiers distinct and removes
/// exactly its key from the map.
pub proof fn lemma_books_remove(s: Seq<Book>, i: int)
    requires
        forall|a: int, b: int|
            0 <= a < b < s.len() ==> (#[trigger] s[a]).olid != (#[trigger] s[b]).olid,
        0 <= i < s.len(),
    ensures
        forall|a: int, b: int|
            0 <= a < b < s.remove(i).len() ==> (#[trigger] s.remove(i)[a]).olid != (
            #[trigger] s.remove(i)[b]).olid,
        books_as_map(s.remove(i)) =~= books_as_map(s).remove(s[i].olid),
{
    let t = s.remove(i);
    s.remove_ensures(i);
    let k0 = s[i].olid;
    assert forall|a: int, b: int| 0 <= a < b < t.len() implies (#[trigger] t[a]).olid != (
    #[trigger] t[b]).olid by {
        let a1: int = if a < i { a } else { a + 1 };
        let b1: int = if b < i { b } else { b + 1 };
        assert(t[a] == s[a1]);
        assert(t[b] == s[b1]);
    }
    assert forall|id: OlId| books_as_map(t).dom().contains(id) <==> books_as_map(s).remove(
        k0,
    ).dom().contains(id) by {
        if books_has(t, id) {
            let j = books_index(t, id);
            if j < i {
                lemma_book_at(s, j, id);
            } else {
                lemma_book_at(s, j + 1, id);
            }
        }
        if books_has(s, id) && id != k0 {
            let j = books_index(s, id);
            assert(j != i);
            if j < i {
                assert(t[j].olid == id);
            } else {
                assert(t[j - 1].olid == id);
            }
        }
    }
    assert forall|id: OlId| #[trigger] books_as_map(t).dom().contains(id) implies books_as_map(
        t,
    )[id] == books_as_map(s).remove(k0)[id] by {
        let j = books_index(t, id);
        assert(0 <= j < t.len() && t[j].olid == id);
        lemma_book_at(t, j, id);
        if j < i {
            lemma_book_at(s, j, id);
        } else {
            lemma_book_at(s, j + 1, id);
        }
    }
}

/// Replacing the book at an index by one with the same identifier keeps
/// identifiers distinct and updates exactly that key in the map.
pub proof fn lemma_books_update(s: Seq<Book>, i: int, x: Book)
    requires
        forall|a: int, b: int|
            0 <= a < b < s.len() ==> (#[trigger] s[a]).olid != (#[trigger] s[b]).olid,
        0 <= i < s.len(),
        s[i].olid == x.olid,
    ensures
        forall|a: int, b: int|
            0 <= a < b < s.update(i, x).len() ==> (#[trigger] s.update(i, x)[a]).olid != (
            #[trigger] s.update(i, x)[b]).olid,
        books_as_map(s.update(i, x)) =~= books_as_map(s).insert(x.olid, x),
{
    let t = s.update(i, x);
    assert forall|a: int, b: int| 0 <= a < b < t.len() implies (#[trigger] t[a]).olid != (
    #[trigger] t[b]).olid by {
        assert(s[a].olid != s[b].olid);
    }
    assert forall|id: OlId| books_as_map(t).dom().contains(id) <==> books_as_map(s).insert(
        x.olid,
        x,
    ).dom().contains(id) by {
        if books_has(t, id) {
            let j = books_index(t, id);
            assert(s[j].olid == id || id == x.olid);
        }
        if books_has(s, id) {
            let j = books_index(s, id);
            assert(t[j].olid == id || id == x.olid);
        }
        if id == x.olid {
            assert(t[i].olid == id);
        }
    }
    assert forall|id: OlId| #[trigger] books_as_map(t).dom().contains(id) implies books_as_map(
        t,
    )[id] == books_as_map(s).insert(x.olid, x)[id] by {
        let j = books_index(t, id);
        assert(0 <= j < t.len() && t[j].olid == id);
        lemma_book_at(t, j, id);
        if id == x.olid {
            lemma_book_at(t, i, id);
        } else {
            assert(j != i);
            lemma_book_at(s, j, id);
        }
    }
}

/// In a cache sequence with pairwise distinct lookup texts, the entry at a
/// text is the one at its (unique) index.
pub proof fn lemma_cache_at(s: Seq<CacheEntry>, i: int, k: Seq<char>)
    requires
        forall|a: int, b: int|
            0 <= a < b < s.len() ==> (#[trigger] s[a]).key@ != (#[trigger] s[b]).key@,
        0 <= i < s.len(),
        s[i].key@ == k,
    ensures
        cache_has(s, k),
        cache_index(s, k) == i,
        cache_as_map(s)[k] == s[i].movie,
{
    assert(cache_has(s, k));
    let j = cache_index(s, k);
    assert(0 <= j < s.len() && s[j].key@ == k);
    if i < j {
        assert(s[i].key@ != s[j].key@);
    } else if j < i {
        assert(s[j].key@ != s[i].key@);
    }
}

/// Appending an entry with a fresh lookup text keeps texts distinct and
/// adds exactly its key to the map.
pub proof fn lemma_cache_push(s: Seq<CacheEntry>, x: CacheEntry)
    requires
        forall|a: int, b: int|
            0 <= a < b < s.len() ==> (#[trigger] s[a]).key@ != (#[trigger] s[b]).key@,
        !cache_has(s, x.key@),
    ensures
        forall|a: int, b: int|
            0 <= a < b < s.push(x).len() ==> (#[trigger] s.push(x)[a]).key@ != (
            #[trigger] s.push(x)[b]).key@,
        cache_as_map(s.push(x)) =~= cache_as_map(s).insert(x.key@, x.movie),
{
    let t = s.push(x);
    assert forall|a: int, b: int| 0 <= a < b < t.len() implies (#[trigger] t[a]).key@ != (
    #[trigger] t[b]).key@ by {
        if b == s.len() {
            assert(t[a] == s[a]);
            if t[a].key@ == x.key@ {
                assert(cache_has(s, x.key@));
            }
        }
    }
    assert forall|k: Seq<char>| cache_as_map(t).dom().contains(k) <==> cache_as_map(s).insert(
        x.key@,
        x.movie,
    ).dom().contains(k) by {
        if cache_has(t, k) {
            let j = cache_index(t, k);
            if j < s.len() {
                assert(s[j].key@ == k);
            }
        }
        if cache_has(s, k) {
            let j = cache_index(s, k);
            assert(t[j].key@ == k);
        }
        if k == x.key@ {
            assert(t[s.len() as int].key@ == k);
        }
    }
    assert forall|k: Seq<char>| #[trigger] cache_as_map(t).dom().contains(k) implies cache_as_map(
        t,
    )[k] == cache_as_map(s).insert(x.key@, x.movie)[k] by {
        let j = cache_index(t, k);
        assert(0 <= j < t.len() && t[j].key@ == k);
        lemma_cache_at(t, j, k);
        if k == x.key@ {
            lemma_cache_at(t, s.len() as int, k);
        } else {
            assert(j < s.len());
            lemma_cache_at(s, j, k);
        }
    }
}

} // verus!
