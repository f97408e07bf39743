//! The OpenLibrary request surface: the endpoint descriptor, the search
//! and work-editions requests with their exact path and query text, and
//! the record shapes their answers carry.
//!
//! The HTTP round-trip itself happens outside; what is verified here is
//! everything that decides what is asked: paths, query pairs, defaults,
//! and the permissive description decoding.

use vstd::prelude::*;
use vstd::string::StringExecFns;

use crate::decimal::dec_digits;
use crate::olid::{Key, OlId};

verus! {

/// The OpenLibrary endpoint.
#[derive(Debug, Clone, PartialEq)]
pub struct Client {
    pub host: String,
}

impl Client {
    /// A client of the public OpenLibrary host.
    pub fn new() -> (c: Client)
        ensures
            c.host@ == "https://openlibrary.org"@,
    {
        Client { host: String::from_str("https://openlibrary.org") }
    }

    /// The absolute URL of a path on this client's host.
    pub fn endpoint(&self, path: &str) -> (u: String)
        ensures
            u@ == self.host@ + path@,
    {
        let mut out = self.host.clone();
        out.append(path);
        out
    }
}

/// Which index a search request queries.
#[derive(Debug, Clone, Copy, PartialEq, Eq, Structural)]
pub enum SearchKind {
    Books,
    Authors,
    Subjects,
    Lists,
}

/// The path fragment a search kind contributes.
pub open spec fn kind_path_text(k: SearchKind) -> Seq<char> {
    match k {
        SearchKind::Books => Seq::empty(),
        SearchKind::Authors => "/authors"@,
        SearchKind::Subjects => "/subjects"@,
        SearchKind::Lists => "/lists"@,
    }
}

/// The path fragment of a search kind.
fn kind_path(k: SearchKind) -> (r: &'static str)
    ensures
        r@ == kind_path_text(k),
{
    proof {
        reveal_strlit("");
        reveal_strlit("/authors");
        reveal_strlit("/subjects");
        reveal_strlit("/lists");
    }
    match k {
        SearchKind::Books => "",
        SearchKind::Authors => "/authors",
        SearchKind::Subjects => "/subjects",
        SearchKind::Lists => "/lists",
    }
}

/// The field list every search requests, as the provider expects it.
pub const SEARCH_FIELDS: &'static str =
    "key,cover_edition_key,edition_count,title,author_name,first_publish_year,ratings_average";

/// A search request: an optional query text, the index to search, and a
/// result window.
#[derive(Debug, Clone, PartialEq)]
pub struct Search {
    pub query: Option<String>,
    pub kind: SearchKind,
    pub offset: u32,
    pub limit: u32,
}

impl Search {
    /// A book search for `query` with the default window: the first ten
    /// results.
    pub fn new(query: String) -> (s: Search)
        ensures
            s.query == Some(query),
            s.kind == SearchKind::Books,
            s.offset == 0,
            s.limit == 10,
    {
        Search { query: Some(query), kind: SearchKind::Books, offset: 0, limit: 10 }
    }

    /// The request path, `/search{kind}.json`.
    pub open spec fn spec_path(&self) -> Seq<char> {
        "/search"@ + kind_path_text(self.kind) + ".json"@
    }

    /// The request path.
    pub fn path(&self) -> (r: String)
        ensures
            r@ == self.spec_path(),
    {
        let mut out = String::from_str("/search");
        out.append(kind_path(self.kind));
        out.append(".json");
        out
    }

    /// The query pairs: the query text (empty if absent), the window, and
    /// the fixed field list.
    pub fn query_pairs(&self) -> (r: Vec<(&'static str, String)>)
        ensures
            r@.len() == 4,
            r@[0].0@ == "q"@,
            r@[0].1@ == match self.query {
                Some(q) => q@,
                None => Seq::<char>::empty(),
            },
            r@[1].0@ == "offset"@,
            r@[1].1@ == dec_digits(self.offset as nat),
            r@[2].0@ == "limit"@,
            r@[2].1@ == dec_digits(self.limit as nat),
            r@[3].0@ == "fields"@,
            r@[3].1@ == SEARCH_FIELDS@,
    {
        let q = match &self.query {
            Some(q) => q.clone(),
            None => String::new(),
        };
        let mut out: Vec<(&'static str, String)> = Vec::new();
        out.push(("q", q));
        out.push(("offset", crate::decimal::u64_to_string(self.offset as u64)));
        out.push(("limit", crate::decimal::u64_to_string(self.limit as u64)));
        out.push(("fields", String::from_str(SEARCH_FIELDS)));
        out
    }
}

/// One document of a search answer.
#[derive(Debug, Clone, PartialEq)]
pub struct Document {
    pub key: Key,
    pub cover_edition_key: Option<OlId>,
    pub edition_count: u32,
    pub title: String,
    pub author_name: Vec<String>,
    pub first_publish_year: Option<u16>,
    /// IEEE-754 bits of the provider's fractional average rating.
    pub ratings_average_bits: Option<u64>,
}

/// A search answer: the window served and its documents.
#[derive(Debug, Clone, PartialEq)]
pub struct SearchResult {
    pub start: u32,
    pub num_found: u32,
    pub docs: Vec<Document>,
}

/// A request for the editions of a work, with a result window.
#[derive(Debug, Clone, PartialEq)]
pub struct WorksEditions {
    pub id: OlId,
    pub offset: u32,
    pub limit: u32,
}

impl WorksEditions {
    /// The editions of `id` with the default window: the first ten.
    pub fn new(id: OlId) -> (r: WorksEditions)
        ensures
            r.id == id,
            r.offset == 0,
            r.limit == 10,
    {
        WorksEditions { id, offset: 0, limit: 10 }
    }

    /// The request path, `/works/{id}/editions.json`.
    pub open spec fn spec_path(&self) -> Seq<char> {
        "/works/"@ + self.id.spec_text() + "/editions.json"@
    }

    /// The request path.
    pub fn path(&self) -> (r: String)
        ensures
            r@ == self.spec_path(),
    {
        let mut out = String::from_str("/works/");
        let id_text = self.id.to_text();
        out.append(id_text.as_str());
        out.append("/editions.json");
        out
    }

    /// The query pairs: the result window.
    pub fn query_pairs(&self) -> (r: Vec<(&'static str, String)>)
        ensures
            r@.len() == 2,
            r@[0].0@ == "offset"@,
            r@[0].1@ == dec_digits(self.offset as nat),
            r@[1].0@ == "limit"@,
            r@[1].1@ == dec_digits(self.limit as nat),
    {
        let mut out: Vec<(&'static str, String)> = Vec::new();
        out.push(("offset", crate::decimal::u64_to_string(self.offset as u64)));
        out.push(("limit", crate::decimal::u64_to_string(self.limit as u64)));
        out
    }
}

/// The navigation links of an editions answer.
#[derive(Debug, Clone, PartialEq)]
pub struct WorksEditionsLinks {
    pub self_: String,
    pub work: String,
    pub next: Option<String>,
}

/// One edition of an editions answer.
#[derive(Debug, Clone, PartialEq)]
pub struct Edition {
    pub key: Key,
    pub isbn_13: Vec<String>,
    pub isbn_10: Vec<String>,
    pub title: String,
    pub description: Option<String>,
    pub authors: Vec<Key>,
    pub publish_date: String,
}

/// An editions answer: its links, total size, and entries.
#[derive(Debug, Clone, PartialEq)]
pub struct WorksEditionsResult {
    pub links: WorksEditionsLinks,
    pub size: u32,
    pub entries: Vec<Edition>,
}

/// A description as the provider serves it: sometimes a bare text,
/// sometimes a typed `{type, value}` object. Both collapse to their text.
#[derive(Debug, Clone, PartialEq)]
pub enum Description {
    Direct(String),
    Typed { shape: String, value: String },
}

impl From<Description> for String {
    /// The text either form carries.
    fn from(value: Description) -> (r: String) {
        match value {
            Description::Direct(text) => text,
            Description::Typed { shape: _, value } => value,
        }
    }
}

impl vstd::std_specs::convert::FromSpecImpl<Description> for String {
    open spec fn obeys_from_spec() -> bool {
        true
    }

    open spec fn from_spec(value: Description) -> String {
        match value {
            Description::Direct(text) => text,
            Description::Typed { shape: _, value } => value,
        }
    }
}

impl From<String> for Description {
    /// A bare text is a direct description.
    fn from(value: String) -> (r: Description) {
        Description::Direct(value)
    }
}

impl vstd::std_specs::convert::FromSpecImpl<String> for Description {
    open spec fn obeys_from_spec() -> bool {
        true
    }

    open spec fn from_spec(value: String) -> Description {
        Description::Direct(value)
    }
}

} // verus!
