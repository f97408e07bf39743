//! The document store: every mutation the service offers, as an operation
//! on the whole `AppData` document. Each operation leaves the document
//! well-formed, says exactly which map entry it changed, and leaves the
//! document untouched when it fails — a caller persists the document only
//! after a successful mutation.

use vstd::prelude::*;

use crate::assoc::{lemma_book_at, lemma_books_push, lemma_books_remove, lemma_books_update,
    lemma_cache_at, lemma_cache_push};
use crate::error::StoreError;
use crate::olid::OlId;
use crate::ratings::same_except_ratings;
use crate::readings::{same_except_pages, same_except_readings};
use crate::schema::{AppData, Book, CacheEntry, Movie, PageEntry, Rating, Reading, Tag, books_has,
    cache_has};
use crate::sorted::{KeyPos, find_key, lemma_key_at, lemma_sorted_insert, lemma_sorted_remove,
    lemma_sorted_update};

verus! {

/// How many fresh random tag IDs are drawn before giving up.
pub const TAG_ID_ATTEMPTS: usize = 64;

/// `b` holds exactly the same data as `a` (so a serialized snapshot of `b`
/// is byte-for-byte that of `a`).
pub open spec fn doc_unchanged(a: AppData, b: AppData) -> bool {
    &&& b.movies@ == a.movies@
    &&& b.tags@ == a.tags@
    &&& b.tmdb_cache@ == a.tmdb_cache@
    &&& b.books@ == a.books@
}

/// `b` agrees with `a` outside the movies collection.
pub open spec fn same_except_movies(a: AppData, b: AppData) -> bool {
    &&& b.tags == a.tags
    &&& b.tmdb_cache == a.tmdb_cache
    &&& b.books == a.books
}

/// `b` agrees with `a` outside the tags collection.
pub open spec fn same_except_tags(a: AppData, b: AppData) -> bool {
    &&& b.movies == a.movies
    &&& b.tmdb_cache == a.tmdb_cache
    &&& b.books == a.books
}

/// `b` agrees with `a` outside the books collection.
pub open spec fn same_except_books(a: AppData, b: AppData) -> bool {
    &&& b.movies == a.movies
    &&& b.tags == a.tags
    &&& b.tmdb_cache == a.tmdb_cache
}

/// `b` agrees with `a` outside the enrichment cache.
pub open spec fn same_except_cache(a: AppData, b: AppData) -> bool {
    &&& b.movies == a.movies
    &&& b.tags == a.tags
    &&& b.books == a.books
}

/// A mutable borrow of one vector element, with the vector's final value
/// pinned to an update at that index.
pub fn elem_at_mut<T>(v: &mut Vec<T>, i: usize) -> (e: &mut T)
    requires
        i < old(v).len(),
    ensures
        *e == old(v)@[i as int],
        final(v)@ == old(v)@.update(i as int, *final(e)),
{
    &mut v[i]
}

/// Relies on `rand::random` for a uniformly distributed candidate ID;
/// nothing is assumed of the value drawn.
#[verifier::external_body]
fn random_u32() -> u32 {
    rand::random::<u32>()
}

/// Linear search for the book carrying `id`.
fn find_book(v: &Vec<Book>, id: OlId) -> (r: Option<usize>)
    ensures
        match r {
            Some(i) => i < v@.len() && v@[i as int].olid == id,
            None => !books_has(v@, id),
        },
{
    let mut i: usize = 0;
    while i < v.len()
        invariant
            0 <= i <= v@.len(),
            forall|j: int| 0 <= j < i ==> (#[trigger] v@[j]).olid != id,
        decreases v@.len() - i,
    {
        if v[i].olid == id {
            return Some(i);
        }
        i = i + 1;
    }
    None
}

/// Linear search for the cache entry carrying the lookup text of `key`.
fn find_cache(v: &Vec<CacheEntry>, key: &String) -> (r: Option<usize>)
    ensures
        match r {
            Some(i) => i < v@.len() && v@[i as int].key@ == key@,
            None => !cache_has(v@, key@),
        },
{
    let mut i: usize = 0;
    while i < v.len()
        invariant
            0 <= i <= v@.len(),
            forall|j: int| 0 <= j < i ==> (#[trigger] v@[j]).key@ != key@,
        decreases v@.len() - i,
    {
        if v[i].key.eq(key) {
            return Some(i);
        }
        i = i + 1;
    }
    None
}

impl AppData {
    /// Look up a movie by provider movie ID.
    pub fn get_movie(&self, id: u64) -> (r: Option<&Movie>)
        requires
            self.wf(),
        ensures
            match r {
                Some(m) => self.movie_map().dom().contains(id) && *m == self.movie_map()[id],
                None => !self.movie_map().dom().contains(id),
            },
    {
        match find_key(&self.movies, id) {
            KeyPos::Found(i) => {
                proof {
                    lemma_key_at(self.movies@, i as int, id);
                }
                Some(&self.movies[i])
            },
            KeyPos::Missing(_) => None,
        }
    }

    /// Look up a book by OpenLibrary identifier.
    pub fn get_book(&self, id: OlId) -> (r: Option<&Book>)
        requires
            self.wf(),
        ensures
            match r {
                Some(b) => self.book_map().dom().contains(id) && *b == self.book_map()[id],
                None => !self.book_map().dom().contains(id),
            },
    {
        match find_book(&self.books, id) {
            Some(i) => {
                proof {
                    lemma_book_at(self.books@, i as int, id);
                }
                Some(&self.books[i])
            },
            None => None,
        }
    }

    /// Create a movie under its own provider ID; an already-used ID is a
    /// `Conflict` and leaves the document untouched.
    pub fn create_movie(&mut self, m: Movie) -> (res: Result<(), StoreError>)
        requires
            old(self).wf(),
            m.wf(),
        ensures
            final(self).wf(),
            same_except_movies(*old(self), *final(self)),
            match res {
                Ok(()) => !old(self).movie_map().dom().contains(m.tmdb_id)
                    && final(self).movie_map() =~= old(self).movie_map().insert(m.tmdb_id, m),
                Err(e) => {
                    &&& e is Conflict
                    &&& old(self).movie_map().dom().contains(m.tmdb_id)
                    &&& doc_unchanged(*old(self), *final(self))
                },
            },
    {
        match find_key(&self.movies, m.tmdb_id) {
            KeyPos::Found(i) => {
                proof {
                    lemma_key_at(self.movies@, i as int, m.tmdb_id);
                }
                Err(StoreError::Conflict)
            },
            KeyPos::Missing(i) => {
                proof {
                    lemma_sorted_insert(self.movies@, i as int, m);
                    self.movies@.insert_ensures(i as int, m);
                }
                self.movies.insert(i, m);
                Ok(())
            },
        }
    }

    /// Replace the movie stored under the new record's provider ID; an
    /// unknown ID is a `NotFound` and leaves the document untouched.
    pub fn replace_movie(&mut self, m: Movie) -> (res: Result<(), StoreError>)
        requires
            old(self).wf(),
            m.wf(),
        ensures
            final(self).wf(),
            same_except_movies(*old(self), *final(self)),
            match res {
                Ok(()) => old(self).movie_map().dom().contains(m.tmdb_id)
                    && final(self).movie_map() =~= old(self).movie_map().insert(m.tmdb_id, m),
                Err(e) => {
                    &&& e is NotFound
                    &&& !old(self).movie_map().dom().contains(m.tmdb_id)
                    &&& doc_unchanged(*old(self), *final(self))
                },
            },
    {
        match find_key(&self.movies, m.tmdb_id) {
            KeyPos::Found(i) => {
                proof {
                    lemma_key_at(self.movies@, i as int, m.tmdb_id);
                    lemma_sorted_update(self.movies@, i as int, m);
                }
                let slot = elem_at_mut(&mut self.movies, i);
                *slot = m;
                Ok(())
            },
            KeyPos::Missing(_) => Err(StoreError::NotFound),
        }
    }

    /// Delete the movie stored under `id`; an unknown ID is a `NotFound`
    /// and leaves the document untouched.
    pub fn delete_movie(&mut self, id: u64) -> (res: Result<(), StoreError>)
        requires
            old(self).wf(),
        ensures
            final(self).wf(),
            same_except_movies(*old(self), *final(self)),
            match res {
                Ok(()) => old(self).movie_map().dom().contains(id) && final(self).movie_map()
                    =~= old(self).movie_map().remove(id),
                Err(e) => {
                    &&& e is NotFound
                    &&& !old(self).movie_map().dom().contains(id)
                    &&& doc_unchanged(*old(self), *final(self))
                },
            },
    {
        match find_key(&self.movies, id) {
            KeyPos::Found(i) => {
                proof {
                    lemma_key_at(self.movies@, i as int, id);
                    lemma_sorted_remove(self.movies@, i as int);
                    self.movies@.remove_ensures(i as int);
                }
                self.movies.remove(i);
                Ok(())
            },
            KeyPos::Missing(_) => Err(StoreError::NotFound),
        }
    }

    /// Create a tag under a caller-chosen ID (the `id` field of `tag` is
    /// ignored in favor of `id`) and return the stored tag; a used ID is
    /// a `Conflict` and leaves the document untouched. The random-ID
    /// `create_tag` draws candidates and commits through this operation.
    pub fn create_tag_with_id(&mut self, tag: Tag, id: u32) -> (res: Result<Tag, StoreError>)
        requires
            old(self).wf(),
        ensures
            final(self).wf(),
            same_except_tags(*old(self), *final(self)),
            match res {
                Ok(t) => {
                    &&& t.id == id
                    &&& t.name == tag.name
                    &&& t.color == tag.color
                    &&& t.icon == tag.icon
                    &&& !old(self).tag_map().dom().contains(id as u64)
                    &&& final(self).tag_map() =~= old(self).tag_map().insert(id as u64, t)
                },
                Err(e) => {
                    &&& e is Conflict
                    &&& old(self).tag_map().dom().contains(id as u64)
                    &&& doc_unchanged(*old(self), *final(self))
                },
            },
    {
        match find_key(&self.tags, id as u64) {
            KeyPos::Missing(i) => {
                let mut t = tag;
                t.id = id;
                let stored = t.duplicate();
                proof {
                    lemma_sorted_insert(self.tags@, i as int, stored);
                    self.tags@.insert_ensures(i as int, stored);
                }
                self.tags.insert(i, stored);
                Ok(t)
            },
            KeyPos::Found(j) => {
                proof {
                    lemma_key_at(self.tags@, j as int, id as u64);
                }
                Err(StoreError::Conflict)
            },
        }
    }

    /// Create a tag under a freshly drawn random ID (the caller's `id`
    /// field is ignored) and return the stored tag: the assigned ID never
    /// collides with an existing key. Only if every draw collides — all
    /// but impossible over a sparsely used 32-bit space — does the
    /// operation give up with a `Conflict`, leaving the document
    /// untouched.
    pub fn create_tag(&mut self, tag: Tag) -> (res: Result<Tag, StoreError>)
        requires
            old(self).wf(),
        ensures
            final(self).wf(),
            same_except_tags(*old(self), *final(self)),
            match res {
                Ok(t) => {
                    &&& t.name == tag.name
                    &&& t.color == tag.color
                    &&& t.icon == tag.icon
                    &&& !old(self).tag_map().dom().contains(t.id as u64)
                    &&& final(self).tag_map() =~= old(self).tag_map().insert(t.id as u64, t)
                },
                Err(e) => {
                    &&& e is Conflict
                    &&& doc_unchanged(*old(self), *final(self))
                },
            },
    {
        let mut attempts: usize = 0;
        while attempts < TAG_ID_ATTEMPTS
            invariant
                old(self).wf(),
                self.wf(),
                doc_unchanged(*old(self), *self),
                same_except_tags(*old(self), *self),
            decreases TAG_ID_ATTEMPTS - attempts,
        {
            let id = random_u32();
            let candidate = tag.duplicate();
            match self.create_tag_with_id(candidate, id) {
                Ok(t) => {
                    return Ok(t);
                },
                Err(_) => {
                    attempts = attempts + 1;
                },
            }
        }
        Err(StoreError::Conflict)
    }

    /// Replace the tag stored under the new record's ID; an unknown ID is
    /// a `NotFound` and leaves the document untouched.
    pub fn replace_tag(&mut self, tag: Tag) -> (res: Result<(), StoreError>)
        requires
            old(self).wf(),
        ensures
            final(self).wf(),
            same_except_tags(*old(self), *final(self)),
            match res {
                Ok(()) => old(self).tag_map().dom().contains(tag.id as u64)
                    && final(self).tag_map() =~= old(self).tag_map().insert(tag.id as u64, tag),
                Err(e) => {
                    &&& e is NotFound
                    &&& !old(self).tag_map().dom().contains(tag.id as u64)
                    &&& doc_unchanged(*old(self), *final(self))
                },
            },
    {
        match find_key(&self.tags, tag.id as u64) {
            KeyPos::Found(i) => {
                proof {
                    lemma_key_at(self.tags@, i as int, tag.id as u64);
                    lemma_sorted_update(self.tags@, i as int, tag);
                }
                let slot = elem_at_mut(&mut self.tags, i);
                *slot = tag;
                Ok(())
            },
            KeyPos::Missing(_) => Err(StoreError::NotFound),
        }
    }

    /// Delete the tag stored under `id`; an unknown ID is a `NotFound` and
    /// leaves the document untouched.
    pub fn delete_tag(&mut self, id: u32) -> (res: Result<(), StoreError>)
        requires
            old(self).wf(),
        ensures
            final(self).wf(),
            same_except_tags(*old(self), *final(self)),
            match res {
                Ok(()) => old(self).tag_map().dom().contains(id as u64) && final(self).tag_map()
                    =~= old(self).tag_map().remove(id as u64),
                Err(e) => {
                    &&& e is NotFound
                    &&& !old(self).tag_map().dom().contains(id as u64)
                    &&& doc_unchanged(*old(self), *final(self))
                },
            },
    {
        match find_key(&self.tags, id as u64) {
            KeyPos::Found(i) => {
                proof {
                    lemma_key_at(self.tags@, i as int, id as u64);
                    lemma_sorted_remove(self.tags@, i as int);
                    self.tags@.remove_ensures(i as int);
                }
                self.tags.remove(i);
                Ok(())
            },
            KeyPos::Missing(_) => Err(StoreError::NotFound),
        }
    }

    /// Insert a rating on the movie stored under `movie_id`: an unknown
    /// movie is a `NotFound`, a date that already has a rating a
    /// `Conflict`; either failure leaves the document untouched.
    pub fn insert_rating(&mut self, movie_id: u64, r: Rating) -> (res: Result<(), StoreError>)
        requires
            old(self).wf(),
            r.wf(),
        ensures
            final(self).wf(),
            same_except_movies(*old(self), *final(self)),
            match res {
                Ok(()) => {
                    &&& old(self).movie_map().dom().contains(movie_id)
                    &&& !old(self).movie_map()[movie_id].ratings_map().dom().contains(r.date)
                    &&& final(self).movie_map().dom() =~= old(self).movie_map().dom()
                    &&& (forall|k: u64|
                        #[trigger] final(self).movie_map().dom().contains(k) && k != movie_id
                            ==> final(self).movie_map()[k] == old(self).movie_map()[k])
                    &&& same_except_ratings(
                        old(self).movie_map()[movie_id],
                        final(self).movie_map()[movie_id],
                    )
                    &&& final(self).movie_map()[movie_id].ratings_map() =~= old(
                        self,
                    ).movie_map()[movie_id].ratings_map().insert(r.date, r)
                },
                Err(e) => {
                    &&& doc_unchanged(*old(self), *final(self))
                    &&& if !old(self).movie_map().dom().contains(movie_id) {
                        e is NotFound
                    } else {
                        e is Conflict && old(self).movie_map()[movie_id].ratings_map().dom()
                            .contains(r.date)
                    }
                },
            },
    {
        match find_key(&self.movies, movie_id) {
            KeyPos::Found(i) => {
                proof {
                    lemma_key_at(self.movies@, i as int, movie_id);
                }
                let m = elem_at_mut(&mut self.movies, i);
                let res = m.insert_rating(r);
                proof {
                    let new_m = self.movies@[i as int];
                    lemma_sorted_update(old(self).movies@, i as int, new_m);
                    assert(old(self).movies@.update(i as int, new_m) =~= self.movies@);
                    if res is Err {
                        assert(self.movies@ =~= old(self).movies@);
                    }
                }
                res
            },
            KeyPos::Missing(_) => Err(StoreError::NotFound),
        }
    }

    /// Replace the rating of `date` on the movie stored under `movie_id`;
    /// a new date moves the rating to that date's sorted slot. An unknown
    /// movie or date is a `NotFound`, an occupied different new date a
    /// `Conflict`; either failure leaves the document untouched.
    pub fn patch_rating(&mut self, movie_id: u64, date: u64, r: Rating) -> (res: Result<
        (),
        StoreError,
    >)
        requires
            old(self).wf(),
            r.wf(),
        ensures
            final(self).wf(),
            same_except_movies(*old(self), *final(self)),
            match res {
                Ok(()) => {
                    &&& old(self).movie_map().dom().contains(movie_id)
                    &&& old(self).movie_map()[movie_id].ratings_map().dom().contains(date)
                    &&& (r.date == date || !old(self).movie_map()[movie_id].ratings_map().dom()
                        .contains(r.date))
                    &&& final(self).movie_map().dom() =~= old(self).movie_map().dom()
                    &&& (forall|k: u64|
                        #[trigger] final(self).movie_map().dom().contains(k) && k != movie_id
                            ==> final(self).movie_map()[k] == old(self).movie_map()[k])
                    &&& same_except_ratings(
                        old(self).movie_map()[movie_id],
                        final(self).movie_map()[movie_id],
                    )
                    &&& final(self).movie_map()[movie_id].ratings_map() =~= old(
                        self,
                    ).movie_map()[movie_id].ratings_map().remove(date).insert(r.date, r)
                },
                Err(e) => {
                    &&& doc_unchanged(*old(self), *final(self))
                    &&& if !old(self).movie_map().dom().contains(movie_id) {
                        e is NotFound
                    } else if !old(self).movie_map()[movie_id].ratings_map().dom().contains(
                        date,
                    ) {
                        e is NotFound
                    } else {
                        &&& e is Conflict
                        &&& r.date != date
                        &&& old(self).movie_map()[movie_id].ratings_map().dom().contains(r.date)
                    }
                },
            },
    {
        match find_key(&self.movies, movie_id) {
            KeyPos::Found(i) => {
                proof {
                    lemma_key_at(self.movies@, i as int, movie_id);
                }
                let m = elem_at_mut(&mut self.movies, i);
                let res = m.patch_rating(date, r);
                proof {
                    let new_m = self.movies@[i as int];
                    lemma_sorted_update(old(self).movies@, i as int, new_m);
                    assert(old(self).movies@.update(i as int, new_m) =~= self.movies@);
                    if res is Err {
                        assert(self.movies@ =~= old(self).movies@);
                    }
                }
                res
            },
            KeyPos::Missing(_) => Err(StoreError::NotFound),
        }
    }

    /// Delete the rating of `date` on the movie stored under `movie_id`;
    /// an unknown movie or date is a `NotFound` and leaves the document
    /// untouched.
    pub fn delete_rating(&mut self, movie_id: u64, date: u64) -> (res: Result<(), StoreError>)
        requires
            old(self).wf(),
        ensures
            final(self).wf(),
            same_except_movies(*old(self), *final(self)),
            match res {
                Ok(()) => {
                    &&& old(self).movie_map().dom().contains(movie_id)
                    &&& old(self).movie_map()[movie_id].ratings_map().dom().contains(date)
                    &&& final(self).movie_map().dom() =~= old(self).movie_map().dom()
                    &&& (forall|k: u64|
                        #[trigger] final(self).movie_map().dom().contains(k) && k != movie_id
                            ==> final(self).movie_map()[k] == old(self).movie_map()[k])
                    &&& same_except_ratings(
                        old(self).movie_map()[movie_id],
                        final(self).movie_map()[movie_id],
                    )
                    &&& final(self).movie_map()[movie_id].ratings_map() =~= old(
                        self,
                    ).movie_map()[movie_id].ratings_map().remove(date)
                },
                Err(e) => {
                    &&& e is NotFound
                    &&& doc_unchanged(*old(self), *final(self))
                    &&& (old(self).movie_map().dom().contains(movie_id) ==> !old(
                        self,
                    ).movie_map()[movie_id].ratings_map().dom().contains(date))
                },
            },
    {
        match find_key(&self.movies, movie_id) {
            KeyPos::Found(i) => {
                proof {
                    lemma_key_at(self.movies@, i as int, movie_id);
                }
                let m = elem_at_mut(&mut self.movies, i);
                let res = m.delete_rating(date);
                proof {
                    let new_m = self.movies@[i as int];
                    lemma_sorted_update(old(self).movies@, i as int, new_m);
                    assert(old(self).movies@.update(i as int, new_m) =~= self.movies@);
                    if res is Err {
                        assert(self.movies@ =~= old(self).movies@);
                    }
                }
                res
            },
            KeyPos::Missing(_) => Err(StoreError::NotFound),
        }
    }

    /// Create a book under its own identifier; an already-used identifier
    /// is a `Conflict` and leaves the document untouched.
    pub fn create_book(&mut self, b: Book) -> (res: Result<(), StoreError>)
        requires
            old(self).wf(),
            b.wf(),
        ensures
            final(self).wf(),
            same_except_books(*old(self), *final(self)),
            match res {
                Ok(()) => !old(self).book_map().dom().contains(b.olid)
                    && final(self).book_map() =~= old(self).book_map().insert(b.olid, b),
                Err(e) => {
                    &&& e is Conflict
                    &&& old(self).book_map().dom().contains(b.olid)
                    &&& doc_unchanged(*old(self), *final(self))
                },
            },
    {
        match find_book(&self.books, b.olid) {
            Some(i) => {
                proof {
                    lemma_book_at(self.books@, i as int, b.olid);
                }
                Err(StoreError::Conflict)
            },
            None => {
                proof {
                    lemma_books_push(self.books@, b);
                }
                self.books.push(b);
                Ok(())
            },
        }
    }

    /// Replace the book stored under the new record's identifier; an
    /// unknown identifier is a `NotFound` and leaves the document
    /// untouched.
    pub fn replace_book(&mut self, b: Book) -> (res: Result<(), StoreError>)
        requires
            old(self).wf(),
            b.wf(),
        ensures
            final(self).wf(),
            same_except_books(*old(self), *final(self)),
            match res {
                Ok(()) => old(self).book_map().dom().contains(b.olid)
                    && final(self).book_map() =~= old(self).book_map().insert(b.olid, b),
                Err(e) => {
                    &&& e is NotFound
                    &&& !old(self).book_map().dom().contains(b.olid)
                    &&& doc_unchanged(*old(self), *final(self))
                },
            },
    {
        match find_book(&self.books, b.olid) {
            Some(i) => {
                proof {
                    lemma_book_at(self.books@, i as int, b.olid);
                    lemma_books_update(self.books@, i as int, b);
                }
                let slot = elem_at_mut(&mut self.books, i);
                *slot = b;
                Ok(())
            },
            None => Err(StoreError::NotFound),
        }
    }

    /// Delete the book stored under `id`; an unknown identifier is a
    /// `NotFound` and leaves the document untouched.
    pub fn delete_book(&mut self, id: OlId) -> (res: Result<(), StoreError>)
        requires
            old(self).wf(),
        ensures
            final(self).wf(),
            same_except_books(*old(self), *final(self)),
            match res {
                Ok(()) => old(self).book_map().dom().contains(id) && final(self).book_map()
                    =~= old(self).book_map().remove(id),
                Err(e) => {
                    &&& e is NotFound
                    &&& !old(self).book_map().dom().contains(id)
                    &&& doc_unchanged(*old(self), *final(self))
                },
            },
    {
        match find_book(&self.books, id) {
            Some(i) => {
                proof {
                    lemma_book_at(self.books@, i as int, id);
                    lemma_books_remove(self.books@, i as int);
                    self.books@.remove_ensures(i as int);
                }
                self.books.remove(i);
                Ok(())
            },
            None => Err(StoreError::NotFound),
        }
    }

    /// Append a reading to the book stored under `id`; an unknown
    /// identifier is a `NotFound` and leaves the document untouched.
    pub fn add_reading(&mut self, id: OlId, rd: Reading) -> (res: Result<(), StoreError>)
        requires
            old(self).wf(),
            rd.wf(),
        ensures
            final(self).wf(),
            same_except_books(*old(self), *final(self)),
            match res {
                Ok(()) => {
                    &&& old(self).book_map().dom().contains(id)
                    &&& final(self).book_map().dom() =~= old(self).book_map().dom()
                    &&& (forall|k: OlId|
                        #[trigger] final(self).book_map().dom().contains(k) && k != id
                            ==> final(self).book_map()[k] == old(self).book_map()[k])
                    &&& same_except_readings(
                        old(self).book_map()[id],
                        final(self).book_map()[id],
                    )
                    &&& final(self).book_map()[id].readings@ == old(
                        self,
                    ).book_map()[id].readings@.push(rd)
                },
                Err(e) => {
                    &&& e is NotFound
                    &&& !old(self).book_map().dom().contains(id)
                    &&& doc_unchanged(*old(self), *final(self))
                },
            },
    {
        match find_book(&self.books, id) {
            Some(i) => {
                proof {
                    lemma_book_at(self.books@, i as int, id);
                }
                let b = elem_at_mut(&mut self.books, i);
                let res = b.add_reading(rd);
                proof {
                    let new_b = self.books@[i as int];
                    lemma_books_update(old(self).books@, i as int, new_b);
                    assert(old(self).books@.update(i as int, new_b) =~= self.books@);
                }
                res
            },
            None => Err(StoreError::NotFound),
        }
    }

    /// Delete the reading at `idx` of the book stored under `id`; an
    /// unknown identifier or an out-of-range index is a `NotFound` and
    /// leaves the document untouched.
    pub fn delete_reading(&mut self, id: OlId, idx: usize) -> (res: Result<(), StoreError>)
        requires
            old(self).wf(),
        ensures
            final(self).wf(),
            same_except_books(*old(self), *final(self)),
            match res {
                Ok(()) => {
                    &&& old(self).book_map().dom().contains(id)
                    &&& idx < old(self).book_map()[id].readings@.len()
                    &&& final(self).book_map().dom() =~= old(self).book_map().dom()
                    &&& (forall|k: OlId|
                        #[trigger] final(self).book_map().dom().contains(k) && k != id
                            ==> final(self).book_map()[k] == old(self).book_map()[k])
                    &&& same_except_readings(
                        old(self).book_map()[id],
                        final(self).book_map()[id],
                    )
                    &&& final(self).book_map()[id].readings@ == old(
                        self,
                    ).book_map()[id].readings@.remove(idx as int)
                },
                Err(e) => {
                    &&& e is NotFound
                    &&& doc_unchanged(*old(self), *final(self))
                    &&& (old(self).book_map().dom().contains(id) ==> idx >= old(
                        self,
                    ).book_map()[id].readings@.len())
                },
            },
    {
        match find_book(&self.books, id) {
            Some(i) => {
                proof {
                    lemma_book_at(self.books@, i as int, id);
                }
                let b = elem_at_mut(&mut self.books, i);
                let res = b.delete_reading(idx);
                proof {
                    let new_b = self.books@[i as int];
                    lemma_books_update(old(self).books@, i as int, new_b);
                    assert(old(self).books@.update(i as int, new_b) =~= self.books@);
                    if res is Err {
                        assert(self.books@ =~= old(self).books@);
                    }
                }
                res
            },
            None => Err(StoreError::NotFound),
        }
    }

    /// Within the reading at `idx` of the book stored under `id`, set the
    /// page count of `date`: zero deletes the day's entry, any positive
    /// count inserts or overwrites it. An unknown identifier or index is a
    /// `NotFound` and leaves the document untouched.
    pub fn set_pages(&mut self, id: OlId, idx: usize, date: u64, pages: u16) -> (res: Result<
        (),
        StoreError,
    >)
        requires
            old(self).wf(),
        ensures
            final(self).wf(),
            same_except_books(*old(self), *final(self)),
            match res {
                Ok(()) => {
                    &&& old(self).book_map().dom().contains(id)
                    &&& idx < old(self).book_map()[id].readings@.len()
                    &&& final(self).book_map().dom() =~= old(self).book_map().dom()
                    &&& (forall|k: OlId|
                        #[trigger] final(self).book_map().dom().contains(k) && k != id
                            ==> final(self).book_map()[k] == old(self).book_map()[k])
                    &&& same_except_readings(
                        old(self).book_map()[id],
                        final(self).book_map()[id],
                    )
                    &&& final(self).book_map()[id].readings@.len() == old(
                        self,
                    ).book_map()[id].readings@.len()
                    &&& (forall|i: int|
                        0 <= i < old(self).book_map()[id].readings@.len() && i != idx
                            ==> final(self).book_map()[id].readings@[i] == old(
                            self,
                        ).book_map()[id].readings@[i])
                    &&& same_except_pages(
                        old(self).book_map()[id].readings@[idx as int],
                        final(self).book_map()[id].readings@[idx as int],
                    )
                    &&& final(self).book_map()[id].readings@[idx as int].pages_map() =~= if pages
                        == 0 {
                        old(self).book_map()[id].readings@[idx as int].pages_map().remove(date)
                    } else {
                        old(self).book_map()[id].readings@[idx as int].pages_map().insert(
                            date,
                            PageEntry { date, pages },
                        )
                    }
                },
                Err(e) => {
                    &&& e is NotFound
                    &&& doc_unchanged(*old(self), *final(self))
                    &&& (old(self).book_map().dom().contains(id) ==> idx >= old(
                        self,
                    ).book_map()[id].readings@.len())
                },
            },
    {
        match find_book(&self.books, id) {
            Some(i) => {
                proof {
                    lemma_book_at(self.books@, i as int, id);
                }
                let b = elem_at_mut(&mut self.books, i);
                let res = b.set_pages(idx, date, pages);
                proof {
                    let new_b = self.books@[i as int];
                    lemma_books_update(old(self).books@, i as int, new_b);
                    assert(old(self).books@.update(i as int, new_b) =~= self.books@);
                    if res is Err {
                        assert(self.books@ =~= old(self).books@);
                    }
                }
                res
            },
            None => Err(StoreError::NotFound),
        }
    }

    /// Set or clear the rating of the reading at `idx` of the book stored
    /// under `id`. An unknown identifier or index is a `NotFound` and
    /// leaves the document untouched.
    pub fn set_reading_rating(&mut self, id: OlId, idx: usize, rating: Option<Rating>) -> (res:
        Result<(), StoreError>)
        requires
            old(self).wf(),
            match rating {
                Some(r) => r.wf(),
                None => true,
            },
        ensures
            final(self).wf(),
            same_except_books(*old(self), *final(self)),
            match res {
                Ok(()) => {
                    &&& old(self).book_map().dom().contains(id)
                    &&& idx < old(self).book_map()[id].readings@.len()
                    &&& final(self).book_map().dom() =~= old(self).book_map().dom()
                    &&& (forall|k: OlId|
                        #[trigger] final(self).book_map().dom().contains(k) && k != id
                            ==> final(self).book_map()[k] == old(self).book_map()[k])
                    &&& same_except_readings(
                        old(self).book_map()[id],
                        final(self).book_map()[id],
                    )
                    &&& final(self).book_map()[id].readings@ == old(
                        self,
                    ).book_map()[id].readings@.update(
                        idx as int,
                        Reading {
                            pages_read: old(self).book_map()[id].readings@[idx as int].pages_read,
                            rating,
                        },
                    )
                },
                Err(e) => {
                    &&& e is NotFound
                    &&& doc_unchanged(*old(self), *final(self))
                    &&& (old(self).book_map().dom().contains(id) ==> idx >= old(
                        self,
                    ).book_map()[id].readings@.len())
                },
            },
    {
        match find_book(&self.books, id) {
            Some(i) => {
                proof {
                    lemma_book_at(self.books@, i as int, id);
                }
                let b = elem_at_mut(&mut self.books, i);
                let res = b.set_reading_rating(idx, rating);
                proof {
                    let new_b = self.books@[i as int];
                    lemma_books_update(old(self).books@, i as int, new_b);
                    assert(old(self).books@.update(i as int, new_b) =~= self.books@);
                    if res is Err {
                        assert(self.books@ =~= old(self).books@);
                    }
                }
                res
            },
            None => Err(StoreError::NotFound),
        }
    }

    /// Look up a memoized enrichment result by the exact lookup text.
    pub fn cache_lookup(&self, key: &String) -> (r: Option<&Movie>)
        requires
            self.wf(),
        ensures
            match r {
                Some(m) => self.cache_map().dom().contains(key@) && *m == self.cache_map()[key@],
                None => !self.cache_map().dom().contains(key@),
            },
    {
        match find_cache(&self.tmdb_cache, key) {
            Some(i) => {
                proof {
                    lemma_cache_at(self.tmdb_cache@, i as int, key@);
                }
                Some(&self.tmdb_cache[i].movie)
            },
            None => None,
        }
    }

    /// Memoize an enrichment result under a lookup text not yet cached.
    pub fn cache_insert(&mut self, key: String, movie: Movie)
        requires
            old(self).wf(),
            movie.wf(),
            !old(self).cache_map().dom().contains(key@),
        ensures
            final(self).wf(),
            same_except_cache(*old(self), *final(self)),
            final(self).cache_map() =~= old(self).cache_map().insert(key@, movie),
    {
        let entry = CacheEntry { key, movie };
        proof {
            lemma_cache_push(self.tmdb_cache@, entry);
        }
        self.tmdb_cache.push(entry);
    }

    /// Empty the enrichment cache; always succeeds.
    pub fn clear_cache(&mut self)
        requires
            old(self).wf(),
        ensures
            final(self).wf(),
            same_except_cache(*old(self), *final(self)),
            final(self).tmdb_cache@.len() == 0,
            final(self).cache_map() =~= Map::<Seq<char>, Movie>::empty(),
    {
        self.tmdb_cache.clear();
    }
}

} // verus!
