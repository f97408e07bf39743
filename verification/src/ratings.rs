//! Rating operations on a single movie: insert by date, patch by date,
//! delete by date. Every operation keeps the ratings strictly ordered by
//! date (at most one rating per calendar day) and is described exactly on
//! the map from day code to rating.

use vstd::prelude::*;

use crate::error::StoreError;
use crate::schema::{Movie, Rating};
use crate::sorted::{KeyPos, find_key, has_key, lemma_key_at, lemma_key_map_determines_seq,
    lemma_sorted_insert, lemma_sorted_remove, lemma_sorted_update};

verus! {

/// `b` agrees with `a` on every movie field except the ratings.
pub open spec fn same_except_ratings(a: Movie, b: Movie) -> bool {
    &&& b.imdb_id == a.imdb_id
    &&& b.tmdb_id == a.tmdb_id
    &&& b.title == a.title
    &&& b.description == a.description
    &&& b.tags == a.tags
    &&& b.platforms == a.platforms
    &&& b.poster == a.poster
    &&& b.release_date == a.release_date
    &&& b.runtime_secs == a.runtime_secs
    &&& b.score_bits == a.score_bits
}

/// Patching a rating to a new date is exactly delete-then-insert. A
/// successful `patch_rating(date, r)` ends with the ratings map
/// `old.remove(date).insert(r.date, r)`, which is just what a successful
/// `delete_rating(date)` followed by a successful `insert_rating(r)`
/// ends with; this lemma lifts that map equality to the stored state
/// itself: two well-formed movies with equal ratings maps hold the same
/// ratings sequence. So the two paths end in the same movie, with no
/// duplicate entry for either date.
pub proof fn lemma_patch_is_delete_then_insert(patched: Movie, stepped: Movie)
    requires
        patched.wf(),
        stepped.wf(),
        patched.ratings_map() == stepped.ratings_map(),
    ensures
        patched.ratings@ == stepped.ratings@,
{
    lemma_key_map_determines_seq(patched.ratings@, stepped.ratings@);
}

impl Movie {
    /// Insert a rating for a date that has none yet; a date that already
    /// has one is a `Conflict` and leaves the movie untouched.
    pub fn insert_rating(&mut self, r: Rating) -> (res: Result<(), StoreError>)
        requires
            old(self).wf(),
            r.wf(),
        ensures
            final(self).wf(),
            same_except_ratings(*old(self), *final(self)),
            match res {
                Ok(()) => !old(self).ratings_map().dom().contains(r.date)
                    && final(self).ratings_map() =~= old(self).ratings_map().insert(r.date, r),
                Err(e) => {
                    &&& e is Conflict
                    &&& old(self).ratings_map().dom().contains(r.date)
                    &&& *final(self) == *old(self)
                },
            },
    {
        match find_key(&self.ratings, r.date) {
            KeyPos::Found(i) => {
                proof {
                    lemma_key_at(self.ratings@, i as int, r.date);
                }
                Err(StoreError::Conflict)
            },
            KeyPos::Missing(i) => {
                proof {
                    lemma_sorted_insert(self.ratings@, i as int, r);
                    self.ratings@.insert_ensures(i as int, r);
                }
                self.ratings.insert(i, r);
                Ok(())
            },
        }
    }

    /// Replace the rating of `date`. A new rating for the same date is
    /// replaced in place; one for a different date moves to that date's
    /// sorted slot — exactly a delete of the old date followed by an insert
    /// of the new one. An absent `date` is a `NotFound`; a different new
    /// date that already has its own rating is a `Conflict`; both leave the
    /// movie untouched.
    pub fn patch_rating(&mut self, date: u64, r: Rating) -> (res: Result<(), StoreError>)
        requires
            old(self).wf(),
            r.wf(),
        ensures
            final(self).wf(),
            same_except_ratings(*old(self), *final(self)),
            match res {
                Ok(()) => {
                    &&& old(self).ratings_map().dom().contains(date)
                    &&& (r.date == date || !old(self).ratings_map().dom().contains(r.date))
                    &&& final(self).ratings_map() =~= old(self).ratings_map().remove(date).insert(
                        r.date,
                        r,
                    )
                },
                Err(e) => {
                    &&& *final(self) == *old(self)
                    &&& if !old(self).ratings_map().dom().contains(date) {
                        e is NotFound
                    } else {
                        &&& e is Conflict
                        &&& r.date != date
                        &&& old(self).ratings_map().dom().contains(r.date)
                    }
                },
            },
    {
        match find_key(&self.ratings, date) {
            KeyPos::Found(i) => {
                proof {
                    lemma_key_at(self.ratings@, i as int, date);
                }
                if r.date == date {
                    proof {
                        lemma_sorted_update(self.ratings@, i as int, r);
                        assert(old(self).ratings_map().remove(date).insert(r.date, r)
                            =~= old(self).ratings_map().insert(r.date, r));
                    }
                    let slot = crate::store::elem_at_mut(&mut self.ratings, i);
                    *slot = r;
                    Ok(())
                } else {
                    match find_key(&self.ratings, r.date) {
                        KeyPos::Found(j) => {
                            proof {
                                lemma_key_at(self.ratings@, j as int, r.date);
                            }
                            Err(StoreError::Conflict)
                        },
                        KeyPos::Missing(_) => {
                            proof {
                                lemma_sorted_remove(self.ratings@, i as int);
                                self.ratings@.remove_ensures(i as int);
                            }
                            self.ratings.remove(i);
                            match find_key(&self.ratings, r.date) {
                                KeyPos::Missing(j) => {
                                    proof {
                                        lemma_sorted_insert(self.ratings@, j as int, r);
                                        self.ratings@.insert_ensures(j as int, r);
                                    }
                                    self.ratings.insert(j, r);
                                    Ok(())
                                },
                                KeyPos::Found(j) => {
                                    proof {
                                        lemma_key_at(self.ratings@, j as int, r.date);
                                        assert(false);
                                    }
                                    Err(StoreError::Conflict)
                                },
                            }
                        },
                    }
                }
            },
            KeyPos::Missing(_) => Err(StoreError::NotFound),
        }
    }

    /// Delete the rating of `date`; an absent date is a `NotFound` and
    /// leaves the movie untouched.
    pub fn delete_rating(&mut self, date: u64) -> (res: Result<(), StoreError>)
        requires
            old(self).wf(),
        ensures
            final(self).wf(),
            same_except_ratings(*old(self), *final(self)),
            match res {
                Ok(()) => old(self).ratings_map().dom().contains(date)
                    && final(self).ratings_map() =~= old(self).ratings_map().remove(date),
                Err(e) => {
                    &&& e is NotFound
                    &&& !old(self).ratings_map().dom().contains(date)
                    &&& *final(self) == *old(self)
                },
            },
    {
        match find_key(&self.ratings, date) {
            KeyPos::Found(i) => {
                proof {
                    lemma_key_at(self.ratings@, i as int, date);
                    lemma_sorted_remove(self.ratings@, i as int);
                    self.ratings@.remove_ensures(i as int);
                }
                self.ratings.remove(i);
                Ok(())
            },
            KeyPos::Missing(_) => {
                proof {
                    if old(self).ratings_map().dom().contains(date) {
                        assert(has_key(self.ratings@, date));
                    }
                }
                Err(StoreError::NotFound)
            },
        }
    }
}

} // verus!
