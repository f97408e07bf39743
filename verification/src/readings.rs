//! Reading operations on a single book: append a reading, delete one by
//! index, set or clear a day's page count inside one, and set or clear its
//! rating. A page count of zero deletes the day's entry; any positive count
//! inserts or overwrites it.

use vstd::prelude::*;

use crate::error::StoreError;
use crate::schema::{Book, PageEntry, Rating, Reading};
use crate::sorted::{KeyPos, find_key, lemma_key_at, lemma_sorted_insert, lemma_sorted_remove,
    lemma_sorted_update};
use crate::store::elem_at_mut;

verus! {

/// `b` agrees with `a` on every book field except the readings.
pub open spec fn same_except_readings(a: Book, b: Book) -> bool {
    &&& b.olid == a.olid
    &&& b.isbn == a.isbn
    &&& b.title == a.title
    &&& b.description == a.description
    &&& b.authors == a.authors
    &&& b.tags == a.tags
    &&& b.release_date == a.release_date
    &&& b.start_page == a.start_page
    &&& b.end_page == a.end_page
    &&& b.score_bits == a.score_bits
}

/// `b` agrees with `a` on everything in a reading except the page counts.
pub open spec fn same_except_pages(a: Reading, b: Reading) -> bool {
    b.rating == a.rating
}

impl Book {
    /// Append a new reading at the end of the sequence.
    pub fn add_reading(&mut self, rd: Reading) -> (res: Result<(), StoreError>)
        requires
            old(self).wf(),
            rd.wf(),
        ensures
            final(self).wf(),
            same_except_readings(*old(self), *final(self)),
            res is Ok,
            final(self).readings@ == old(self).readings@.push(rd),
    {
        self.readings.push(rd);
        Ok(())
    }

    /// Delete the reading at `idx`; an out-of-range index is a `NotFound`
    /// and leaves the book untouched.
    pub fn delete_reading(&mut self, idx: usize) -> (res: Result<(), StoreError>)
        requires
            old(self).wf(),
        ensures
            final(self).wf(),
            same_except_readings(*old(self), *final(self)),
            match res {
                Ok(()) => idx < old(self).readings@.len() && final(self).readings@ == old(
                    self,
                ).readings@.remove(idx as int),
                Err(e) => {
                    &&& e is NotFound
                    &&& idx >= old(self).readings@.len()
                    &&& *final(self) == *old(self)
                },
            },
    {
        if idx >= self.readings.len() {
            return Err(StoreError::NotFound);
        }
        proof {
            self.readings@.remove_ensures(idx as int);
        }
        self.readings.remove(idx);
        Ok(())
    }

    /// Within the reading at `idx`, set the page count of `date`: zero
    /// deletes the day's entry (a no-op if absent), any positive count
    /// inserts or overwrites it. An out-of-range index is a `NotFound` and
    /// leaves the book untouched.
    pub fn set_pages(&mut self, idx: usize, date: u64, pages: u16) -> (res: Result<
        (),
        StoreError,
    >)
        requires
            old(self).wf(),
        ensures
            final(self).wf(),
            same_except_readings(*old(self), *final(self)),
            match res {
                Ok(()) => {
                    &&& idx < old(self).readings@.len()
                    &&& final(self).readings@.len() == old(self).readings@.len()
                    &&& (forall|i: int|
                        0 <= i < old(self).readings@.len() && i != idx
                            ==> final(self).readings@[i] == old(self).readings@[i])
                    &&& same_except_pages(
                        old(self).readings@[idx as int],
                        final(self).readings@[idx as int],
                    )
                    &&& final(self).readings@[idx as int].pages_map() =~= if pages == 0 {
                        old(self).readings@[idx as int].pages_map().remove(date)
                    } else {
                        old(self).readings@[idx as int].pages_map().insert(
                            date,
                            PageEntry { date, pages },
                        )
                    }
                },
                Err(e) => {
                    &&& e is NotFound
                    &&& idx >= old(self).readings@.len()
                    &&& *final(self) == *old(self)
                },
            },
    {
        if idx >= self.readings.len() {
            return Err(StoreError::NotFound);
        }
        let rd = elem_at_mut(&mut self.readings, idx);
        match find_key(&rd.pages_read, date) {
            KeyPos::Found(i) => {
                proof {
                    lemma_key_at(rd.pages_read@, i as int, date);
                }
                if pages == 0 {
                    proof {
                        lemma_sorted_remove(rd.pages_read@, i as int);
                        rd.pages_read@.remove_ensures(i as int);
                    }
                    rd.pages_read.remove(i);
                } else {
                    let entry = PageEntry { date, pages };
                    proof {
                        lemma_sorted_update(rd.pages_read@, i as int, entry);
                    }
                    let slot = elem_at_mut(&mut rd.pages_read, i);
                    *slot = entry;
                }
            },
            KeyPos::Missing(i) => {
                if pages != 0 {
                    let entry = PageEntry { date, pages };
                    proof {
                        lemma_sorted_insert(rd.pages_read@, i as int, entry);
                        rd.pages_read@.insert_ensures(i as int, entry);
                    }
                    rd.pages_read.insert(i, entry);
                }
            },
        }
        Ok(())
    }

    /// Set or clear the rating of the reading at `idx`. An out-of-range
    /// index is a `NotFound` and leaves the book untouched.
    pub fn set_reading_rating(&mut self, idx: usize, rating: Option<Rating>) -> (res: Result<
        (),
        StoreError,
    >)
        requires
            old(self).wf(),
            match rating {
                Some(r) => r.wf(),
                None => true,
            },
        ensures
            final(self).wf(),
            same_except_readings(*old(self), *final(self)),
            match res {
                Ok(()) => {
                    &&& idx < old(self).readings@.len()
                    &&& final(self).readings@ == old(self).readings@.update(
                        idx as int,
                        Reading {
                            pages_read: old(self).readings@[idx as int].pages_read,
                            rating,
                        },
                    )
                },
                Err(e) => {
                    &&& e is NotFound
                    &&& idx >= old(self).readings@.len()
                    &&& *final(self) == *old(self)
                },
            },
    {
        if idx >= self.readings.len() {
            return Err(StoreError::NotFound);
        }
        let rd = elem_at_mut(&mut self.readings, idx);
        rd.rating = rating;
        Ok(())
    }
}

} // verus!
