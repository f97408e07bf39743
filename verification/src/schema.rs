//! The document's data model: movies, ratings, tags, books, readings, and
//! the aggregate `AppData` document with its well-formedness invariant.
//!
//! Dates are opaque `u64` day codes compared only for order and equality;
//! provider scores and watch speeds are IEEE-754 bit patterns carried
//! through untouched.

use vstd::prelude::*;

use crate::olid::OlId;
use crate::sorted::{SortKey, key_map, sorted_by_key};

verus! {

/// A streaming or viewing platform.
#[derive(Debug, Clone, Copy, PartialEq, Eq, Structural)]
pub enum Platform {
    DisneyPlus,
    Jellyfin,
    Netflix,
    PrimeVideo,
    YouTube,
    Dvd,
    BluRay,
    Cinema,
    Tv,
    Airplane,
    AppleTv,
    Stan,
}

/// An RGB display color.
#[derive(Debug, Clone, Copy, PartialEq, Eq, Structural)]
pub struct Color {
    pub red: u8,
    pub green: u8,
    pub blue: u8,
}

/// A free-form label with a display color and an optional icon name.
#[derive(Debug, Clone, PartialEq)]
pub struct Tag {
    pub id: u32,
    pub name: String,
    pub color: Color,
    pub icon: Option<String>,
}

impl Tag {
    /// An equal copy of this tag.
    pub fn duplicate(&self) -> (r: Tag)
        ensures
            r == *self,
    {
        Tag {
            id: self.id,
            name: self.name.clone(),
            color: self.color,
            icon: match &self.icon {
                Some(s) => Some(s.clone()),
                None => None,
            },
        }
    }
}

impl SortKey for Tag {
    open spec fn skey(&self) -> u64 {
        self.id as u64
    }

    fn key(&self) -> u64 {
        self.id as u64
    }
}

impl SortKey for u32 {
    open spec fn skey(&self) -> u64 {
        *self as u64
    }

    fn key(&self) -> u64 {
        *self as u64
    }
}

/// One watch of a movie: the day it was watched, an integer rating, the
/// watch speed (IEEE-754 bits of its fractional value), an optional
/// platform and a set of tag IDs.
#[derive(Debug, Clone, PartialEq)]
pub struct Rating {
    pub date: u64,
    pub rating: u8,
    pub speed_bits: u32,
    pub platform: Option<Platform>,
    pub tags: Vec<u32>,
}

impl SortKey for Rating {
    open spec fn skey(&self) -> u64 {
        self.date
    }

    fn key(&self) -> u64 {
        self.date
    }
}

impl Rating {
    /// The tag IDs form a set: strictly increasing.
    pub open spec fn wf(&self) -> bool {
        sorted_by_key(self.tags@)
    }
}

/// A catalogued movie: immutable identity fields plus the mutable ratings,
/// tags and platforms collections.
#[derive(Debug, Clone, PartialEq)]
pub struct Movie {
    pub imdb_id: Option<u32>,
    pub tmdb_id: u64,
    pub title: String,
    pub description: String,
    pub ratings: Vec<Rating>,
    pub tags: Vec<u32>,
    pub platforms: Vec<Platform>,
    pub poster: Option<String>,
    pub release_date: u64,
    pub runtime_secs: u64,
    pub score_bits: u64,
}

impl SortKey for Movie {
    open spec fn skey(&self) -> u64 {
        self.tmdb_id
    }

    fn key(&self) -> u64 {
        self.tmdb_id
    }
}

impl Movie {
    /// The ratings as a map from day code to rating.
    pub open spec fn ratings_map(&self) -> Map<u64, Rating> {
        key_map(self.ratings@)
    }

    /// Ratings strictly ordered by date (at most one per calendar day),
    /// each rating well-formed, tag IDs a set, platforms a set.
    pub open spec fn wf(&self) -> bool {
        &&& sorted_by_key(self.ratings@)
        &&& (forall|i: int|
            0 <= i < self.ratings@.len() ==> (#[trigger] self.ratings@[i]).wf())
        &&& sorted_by_key(self.tags@)
        &&& (forall|i: int, j: int|
            0 <= i < j < self.platforms@.len() ==> self.platforms@[i] != self.platforms@[j])
    }
}

/// The identity fields of a movie as a provider search returns them.
#[derive(Debug, Clone, PartialEq)]
pub struct MovieStub {
    pub tmdb_id: u64,
    pub title: String,
    pub description: String,
    pub release_date: u64,
    pub poster: Option<String>,
}

/// One day's page count within a reading.
#[derive(Debug, Clone, PartialEq)]
pub struct PageEntry {
    pub date: u64,
    pub pages: u16,
}

impl SortKey for PageEntry {
    open spec fn skey(&self) -> u64 {
        self.date
    }

    fn key(&self) -> u64 {
        self.date
    }
}

/// One reading of a book: per-day page counts and an optional rating.
#[derive(Debug, Clone, PartialEq)]
pub struct Reading {
    pub pages_read: Vec<PageEntry>,
    pub rating: Option<Rating>,
}

impl Reading {
    /// The page counts as a map from day code to entry.
    pub open spec fn pages_map(&self) -> Map<u64, PageEntry> {
        key_map(self.pages_read@)
    }

    /// Page counts strictly ordered by date; the rating, if any,
    /// well-formed.
    pub open spec fn wf(&self) -> bool {
        &&& sorted_by_key(self.pages_read@)
        &&& match self.rating {
            Some(r) => r.wf(),
            None => true,
        }
    }
}

/// A catalogued book, keyed by its OpenLibrary identifier.
#[derive(Debug, Clone, PartialEq)]
pub struct Book {
    pub olid: OlId,
    pub isbn: u64,
    pub title: String,
    pub description: String,
    pub authors: Vec<String>,
    pub readings: Vec<Reading>,
    pub tags: Vec<u32>,
    pub release_date: String,
    pub start_page: u16,
    pub end_page: u16,
    pub score_bits: Option<u64>,
}

impl Book {
    /// Tag IDs a set; every reading well-formed.
    pub open spec fn wf(&self) -> bool {
        &&& sorted_by_key(self.tags@)
        &&& (forall|i: int|
            0 <= i < self.readings@.len() ==> (#[trigger] self.readings@[i]).wf())
    }
}

/// One memoized enrichment result: the exact lookup text the caller used,
/// and the movie it resolved to.
#[derive(Debug, Clone, PartialEq)]
pub struct CacheEntry {
    pub key: String,
    pub movie: Movie,
}

/// The whole document: every mapping the service persists.
#[derive(Debug, Clone, PartialEq)]
pub struct AppData {
    /// Movies, ordered by provider movie ID.
    pub movies: Vec<Movie>,
    /// Tags, ordered by tag ID.
    pub tags: Vec<Tag>,
    /// Memoized enrichment results, keyed by the caller's lookup text.
    pub tmdb_cache: Vec<CacheEntry>,
    /// Books, keyed by OpenLibrary identifier.
    pub books: Vec<Book>,
}

/// Some book in `s` carries the identifier `id`.
pub open spec fn books_has(s: Seq<Book>, id: OlId) -> bool {
    exists|i: int| 0 <= i < s.len() && (#[trigger] s[i]).olid == id
}

/// The index of the book carrying `id` (meaningful when present and keys
/// are unique).
pub open spec fn books_index(s: Seq<Book>, id: OlId) -> int {
    choose|i: int| 0 <= i < s.len() && (#[trigger] s[i]).olid == id
}

/// The books as a map from identifier to book.
pub open spec fn books_as_map(s: Seq<Book>) -> Map<OlId, Book> {
    Map::new(|id: OlId| books_has(s, id), |id: OlId| s[books_index(s, id)])
}

/// Some cache entry in `s` carries the lookup text `k`.
pub open spec fn cache_has(s: Seq<CacheEntry>, k: Seq<char>) -> bool {
    exists|i: int| 0 <= i < s.len() && (#[trigger] s[i]).key@ == k
}

/// The index of the entry carrying `k` (meaningful when present and keys
/// are unique).
pub open spec fn cache_index(s: Seq<CacheEntry>, k: Seq<char>) -> int {
    choose|i: int| 0 <= i < s.len() && (#[trigger] s[i]).key@ == k
}

/// The cache as a map from lookup text to movie.
pub open spec fn cache_as_map(s: Seq<CacheEntry>) -> Map<Seq<char>, Movie> {
    Map::new(|k: Seq<char>| cache_has(s, k), |k: Seq<char>| s[cache_index(s, k)].movie)
}

impl AppData {
    /// The movies as a map from provider movie ID to movie.
    pub open spec fn movie_map(&self) -> Map<u64, Movie> {
        key_map(self.movies@)
    }

    /// The tags as a map from tag ID to tag.
    pub open spec fn tag_map(&self) -> Map<u64, Tag> {
        key_map(self.tags@)
    }

    /// The books as a map from identifier to book.
    pub open spec fn book_map(&self) -> Map<OlId, Book> {
        books_as_map(self.books@)
    }

    /// The enrichment cache as a map from lookup text to movie.
    pub open spec fn cache_map(&self) -> Map<Seq<char>, Movie> {
        cache_as_map(self.tmdb_cache@)
    }

    /// The document invariant: every ordered collection strictly ordered,
    /// every keyed collection with unique keys, every record well-formed.
    pub open spec fn wf(&self) -> bool {
        &&& sorted_by_key(self.movies@)
        &&& (forall|i: int| 0 <= i < self.movies@.len() ==> (#[trigger] self.movies@[i]).wf())
        &&& sorted_by_key(self.tags@)
        &&& (forall|i: int, j: int|
            0 <= i < j < self.books@.len() ==> (#[trigger] self.books@[i]).olid != (
            #[trigger] self.books@[j]).olid)
        &&& (forall|i: int| 0 <= i < self.books@.len() ==> (#[trigger] self.books@[i]).wf())
        &&& (forall|i: int, j: int|
            0 <= i < j < self.tmdb_cache@.len() ==> (#[trigger] self.tmdb_cache@[i]).key@ != (
            #[trigger] self.tmdb_cache@[j]).key@)
        &&& (forall|i: int|
            0 <= i < self.tmdb_cache@.len() ==> (#[trigger] self.tmdb_cache@[i]).movie.wf())
    }

    /// An empty document.
    pub fn new() -> (d: AppData)
        ensures
            d.wf(),
            d.movies@.len() == 0,
            d.tags@.len() == 0,
            d.tmdb_cache@.len() == 0,
            d.books@.len() == 0,
    {
        AppData { movies: Vec::new(), tags: Vec::new(), tmdb_cache: Vec::new(), books: Vec::new() }
    }
}

} // verus!
