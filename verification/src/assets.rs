//! The binary asset cache: posters and covers served from a local cache,
//! fetched from the external image host only on a miss and committed to
//! the cache before they are served.
//!
//! `AssetCache` models the contents of one cache directory (one kind and
//! size variant); the caller mirrors every committed entry to disk. The
//! `asset_plan` decision says exactly when a fetch happens: never for a
//! cached name, and never when the download URL cannot be resolved.

use vstd::prelude::*;

use crate::error::StoreError;
use crate::olid::OlId;
use vstd::string::StringExecFns;

verus! {

/// One cached asset: its name and its bytes.
#[derive(Debug, Clone, PartialEq)]
pub struct AssetEntry {
    pub name: String,
    pub bytes: Vec<u8>,
}

/// Some entry in `s` carries the name `n`.
pub open spec fn assets_have(s: Seq<AssetEntry>, n: Seq<char>) -> bool {
    exists|i: int| 0 <= i < s.len() && (#[trigger] s[i]).name@ == n
}

/// The index of the entry named `n` (meaningful when present and names are
/// unique).
pub open spec fn assets_index(s: Seq<AssetEntry>, n: Seq<char>) -> int {
    choose|i: int| 0 <= i < s.len() && (#[trigger] s[i]).name@ == n
}

/// The cache as a map from asset name to bytes.
pub open spec fn assets_as_map(s: Seq<AssetEntry>) -> Map<Seq<char>, Seq<u8>> {
    Map::new(|n: Seq<char>| assets_have(s, n), |n: Seq<char>| s[assets_index(s, n)].bytes@)
}

/// In a sequence with pairwise distinct names, the entry at a name is the
/// one at its (unique) index.
pub proof fn lemma_asset_at(s: Seq<AssetEntry>, i: int, n: Seq<char>)
    requires
        forall|a: int, b: int|
            0 <= a < b < s.len() ==> (#[trigger] s[a]).name@ != (#[trigger] s[b]).name@,
        0 <= i < s.len(),
        s[i].name@ == n,
    ensures
        assets_have(s, n),
        assets_index(s, n) == i,
        assets_as_map(s)[n] == s[i].bytes@,
{
    assert(assets_have(s, n));
    let j = assets_index(s, n);
    assert(0 <= j < s.len() && s[j].name@ == n);
    if i < j {
        assert(s[i].name@ != s[j].name@);
    } else if j < i {
        assert(s[j].name@ != s[i].name@);
    }
}

/// The file-backed cache of one asset directory, modeled in memory.
#[derive(Debug, Clone, PartialEq)]
pub struct AssetCache {
    pub entries: Vec<AssetEntry>,
}

impl AssetCache {
    /// The cached bytes by asset name.
    pub open spec fn cache_map(&self) -> Map<Seq<char>, Seq<u8>> {
        assets_as_map(self.entries@)
    }

    /// Names are pairwise distinct.
    pub open spec fn wf(&self) -> bool {
        forall|a: int, b: int|
            0 <= a < b < self.entries@.len() ==> (#[trigger] self.entries@[a]).name@ != (
            #[trigger] self.entries@[b]).name@
    }

    /// An empty cache.
    pub fn new() -> (c: AssetCache)
        ensures
            c.wf(),
            c.entries@.len() == 0,
    {
        AssetCache { entries: Vec::new() }
    }

    /// The cached bytes of `name`, if any.
    pub fn lookup(&self, name: &String) -> (r: Option<&Vec<u8>>)
        requires
            self.wf(),
        ensures
            match r {
                Some(b) => self.cache_map().dom().contains(name@) && b@ == self.cache_map()[name@],
                None => !self.cache_map().dom().contains(name@),
            },
    {
        let mut i: usize = 0;
        while i < self.entries.len()
            invariant
                self.wf(),
                0 <= i <= self.entries@.len(),
                forall|j: int| 0 <= j < i ==> (#[trigger] self.entries@[j]).name@ != name@,
            decreases self.entries@.len() - i,
        {
            if self.entries[i].name.eq(name) {
                proof {
                    lemma_asset_at(self.entries@, i as int, name@);
                }
                return Some(&self.entries[i].bytes);
            }
            i = i + 1;
        }
        None
    }

    /// Commit downloaded bytes under a name: a fresh name is added, an
    /// existing one silently overwritten (the benign race of two
    /// concurrent misses resolves to the later write).
    pub fn commit_download(&mut self, name: String, bytes: Vec<u8>)
        requires
            old(self).wf(),
        ensures
            final(self).wf(),
            final(self).cache_map() =~= old(self).cache_map().insert(name@, bytes@),
    {
        let mut i: usize = 0;
        while i < self.entries.len()
            invariant
                *self == *old(self),
                old(self).wf(),
                0 <= i <= self.entries@.len(),
                forall|j: int| 0 <= j < i ==> (#[trigger] self.entries@[j]).name@ != name@,
            decreases self.entries@.len() - i,
        {
            if self.entries[i].name.eq(&name) {
                let entry = AssetEntry { name, bytes };
                proof {
                    let s = self.entries@;
                    let t = s.update(i as int, entry);
                    assert forall|a: int, b: int| 0 <= a < b < t.len() implies (
                    #[trigger] t[a]).name@ != (#[trigger] t[b]).name@ by {
                        assert(s[a].name@ != s[b].name@);
                        assert(s[i as int].name@ == entry.name@);
                    }
                    assert forall|n: Seq<char>|
                        assets_have(t, n) <==> assets_have(s, n) by {
                        if assets_have(t, n) {
                            let j = assets_index(t, n);
                            assert(s[j].name@ == n || n == entry.name@);
                            assert(s[i as int].name@ == entry.name@);
                        }
                        if assets_have(s, n) {
                            let j = assets_index(s, n);
                            assert(t[j].name@ == n || n == entry.name@);
                            assert(t[i as int].name@ == entry.name@);
                        }
                    }
                    assert forall|n: Seq<char>| #[trigger]
                        assets_as_map(t).dom().contains(n) implies assets_as_map(t)[n]
                        == assets_as_map(s).insert(entry.name@, entry.bytes@)[n] by {
                        let j = assets_index(t, n);
                        assert(0 <= j < t.len() && t[j].name@ == n);
                        lemma_asset_at(t, j, n);
                        if n == entry.name@ {
                            lemma_asset_at(t, i as int, n);
                        } else {
                            assert(j != i);
                            lemma_asset_at(s, j, n);
                        }
                    }
                    assert(assets_as_map(t) =~= assets_as_map(s).insert(entry.name@, entry.bytes@));
                }
                let slot = crate::store::elem_at_mut(&mut self.entries, i);
                *slot = entry;
                return ;
            }
            i = i + 1;
        }
        let entry = AssetEntry { name, bytes };
        proof {
            let s = self.entries@;
            let t = s.push(entry);
            assert forall|a: int, b: int| 0 <= a < b < t.len() implies (#[trigger] t[a]).name@
                != (#[trigger] t[b]).name@ by {
                if b == s.len() {
                    assert(t[a] == s[a]);
                }
            }
            assert forall|n: Seq<char>| assets_have(t, n) <==> assets_have(s, n) || n
                == entry.name@ by {
                if assets_have(t, n) {
                    let j = assets_index(t, n);
                    if j < s.len() {
                        assert(s[j].name@ == n);
                    }
                }
                if assets_have(s, n) {
                    let j = assets_index(s, n);
                    assert(t[j].name@ == n);
                }
                if n == entry.name@ {
                    assert(t[s.len() as int].name@ == n);
                }
            }
            assert forall|n: Seq<char>| #[trigger] assets_as_map(t).dom().contains(
                n,
            ) implies assets_as_map(t)[n] == assets_as_map(s).insert(entry.name@, entry.bytes@)[n]
                by {
                let j = assets_index(t, n);
                assert(0 <= j < t.len() && t[j].name@ == n);
                lemma_asset_at(t, j, n);
                if n == entry.name@ {
                    lemma_asset_at(t, s.len() as int, n);
                } else {
                    assert(j < s.len());
                    lemma_asset_at(s, j, n);
                }
            }
            assert(assets_as_map(t) =~= assets_as_map(s).insert(entry.name@, entry.bytes@));
        }
        self.entries.push(entry);
    }
}

/// What a request for an asset must do next.
pub enum AssetPlan<'a> {
    /// Serve these cached bytes; no network is touched.
    Hit(&'a Vec<u8>),
    /// Fetch this URL, commit the response, then serve it.
    Fetch(String),
    /// Give up with the resolver's own error; no network is touched.
    Fail(StoreError),
}

/// Decide a request for `name`: a cached name is served from the cache; an
/// uncached name is fetched from the resolved URL; an uncached name whose
/// URL cannot be resolved fails with the resolver's error, verbatim.
pub fn asset_plan<'a>(cache: &'a AssetCache, name: &String, url: Result<String, StoreError>) -> (r:
    AssetPlan<'a>)
    requires
        cache.wf(),
    ensures
        match r {
            AssetPlan::Hit(b) => cache.cache_map().dom().contains(name@) && b@
                == cache.cache_map()[name@],
            AssetPlan::Fetch(u) => !cache.cache_map().dom().contains(name@) && url is Ok && u
                == url->Ok_0,
            AssetPlan::Fail(e) => !cache.cache_map().dom().contains(name@) && url is Err && e
                == url->Err_0,
        },
{
    match cache.lookup(name) {
        Some(b) => AssetPlan::Hit(b),
        None => match url {
            Ok(u) => AssetPlan::Fetch(u),
            Err(e) => AssetPlan::Fail(e),
        },
    }
}

/// After a miss on `name` was fetched and committed, a second request for
/// `name` finds exactly the committed bytes in the cache — it is served
/// without any fetch.
pub proof fn lemma_second_request_hits(before: AssetCache, after: AssetCache, name: Seq<char>,
    bytes: Seq<u8>)
    requires
        after.cache_map() == before.cache_map().insert(name, bytes),
    ensures
        after.cache_map().dom().contains(name),
        after.cache_map()[name] == bytes,
{
}

/// The poster host's URL for a named poster at a size variant.
pub fn poster_url(size: &str, name: &str) -> (u: String)
    ensures
        u@ == "https://image.tmdb.org/t/p/"@ + size@ + "/"@ + name@,
{
    let mut out = String::from_str("https://image.tmdb.org/t/p/");
    out.append(size);
    out.append("/");
    out.append(name);
    out
}

/// The cover host's URL for a cover, which needs the book's OpenLibrary
/// identifier: without one the request fails, before any network is
/// touched, with a `ServiceUnavailable` naming the missing identifier.
pub fn cover_url(olid: Option<OlId>, size: &str) -> (r: Result<String, StoreError>)
    ensures
        match r {
            Ok(u) => olid is Some && u@ == "https://covers.openlibrary.org/b/olid/"@
                + olid->Some_0.spec_text() + "-"@ + size@ + ".jpg?default=false"@,
            Err(e) => {
                &&& olid is None
                &&& e is ServiceUnavailable
                &&& e->ServiceUnavailable_0@
                    == "cannot auto-download cover without OpenLibrary ID"@
            },
        },
{
    match olid {
        Some(id) => {
            let mut out = String::from_str("https://covers.openlibrary.org/b/olid/");
            let id_text = id.to_text();
            out.append(id_text.as_str());
            out.append("-");
            out.append(size);
            out.append(".jpg?default=false");
            Ok(out)
        },
        None => Err(
            StoreError::ServiceUnavailable(
                String::from_str("cannot auto-download cover without OpenLibrary ID"),
            ),
        ),
    }
}

} // verus!
