//! The metadata enrichment cache-fill protocol: classify the caller's
//! lookup text, decide whether the memo already answers it, and assemble a
//! local movie record from what the provider returned. The network calls
//! themselves happen outside; every decision around them is here.

use vstd::prelude::*;
use vstd::string::StrSliceExecFns;
use vstd::string::StringExecFns;

use crate::decimal::{all_dec_digits, dec_digits, digits_val, parse_u32, parse_u64};
use crate::error::StoreError;
use crate::schema::{AppData, Movie, Platform};

verus! {

/// `s` starts with the cross-reference prefix `tt`.
pub open spec fn has_imdb_prefix(s: Seq<char>) -> bool {
    s.len() >= 2 && s[0] == 't' && s[1] == 't'
}

/// A lookup text, classified: either the provider's own numeric ID or a
/// cross-reference number that must first be resolved.
pub enum LookupId {
    /// The provider's native movie ID.
    Tmdb(u64),
    /// The numeric part of a `tt`-prefixed cross-reference ID.
    Imdb(u32),
}

/// Classify a lookup text: `tt{digits}` is a cross-reference ID, bare
/// digits are a native ID, and anything else — including numbers too large
/// for their ID space — is a `BadRequest`.
pub fn classify_lookup(s: &str) -> (r: Result<LookupId, StoreError>)
    ensures
        match r {
            Ok(LookupId::Imdb(n)) => {
                &&& has_imdb_prefix(s@)
                &&& s@.len() > 2
                &&& all_dec_digits(s@.skip(2))
                &&& n == digits_val(s@.skip(2))
            },
            Ok(LookupId::Tmdb(n)) => {
                &&& !has_imdb_prefix(s@)
                &&& s@.len() > 0
                &&& all_dec_digits(s@)
                &&& n == digits_val(s@)
            },
            Err(e) => {
                &&& e is BadRequest
                &&& if has_imdb_prefix(s@) {
                    s@.len() == 2 || !all_dec_digits(s@.skip(2)) || digits_val(s@.skip(2))
                        > u32::MAX
                } else {
                    s@.len() == 0 || !all_dec_digits(s@) || digits_val(s@) > u64::MAX
                }
            },
        },
{
    let n = s.unicode_len();
    if n >= 2 && s.get_char(0) == 't' && s.get_char(1) == 't' {
        let rest = s.substring_char(2, n);
        match parse_u32(rest) {
            Some(num) => Ok(LookupId::Imdb(num)),
            None => Err(StoreError::BadRequest),
        }
    } else {
        match parse_u64(s) {
            Some(num) => Ok(LookupId::Tmdb(num)),
            None => Err(StoreError::BadRequest),
        }
    }
}

/// What a resolution request must do next.
pub enum ResolveStep<'a> {
    /// The memo already holds the record; serve it, no provider call.
    Cached(&'a Movie),
    /// Ask the provider to resolve this cross-reference number, then fetch
    /// details for what it names.
    NeedFind(u32),
    /// Fetch details (and availability) for this native ID.
    NeedDetails(u64),
    /// The lookup text is malformed; refuse it, no provider call.
    Reject(StoreError),
}

/// Decide a resolution request for `key`: a memoized text is served from
/// the cache; otherwise the text's classification says which provider call
/// comes next; a malformed text is rejected before any network.
pub fn resolve_step<'a>(data: &'a AppData, key: &String) -> (r: ResolveStep<'a>)
    requires
        data.wf(),
    ensures
        match r {
            ResolveStep::Cached(m) => data.cache_map().dom().contains(key@) && *m
                == data.cache_map()[key@],
            ResolveStep::NeedFind(n) => {
                &&& !data.cache_map().dom().contains(key@)
                &&& has_imdb_prefix(key@)
                &&& key@.len() > 2
                &&& all_dec_digits(key@.skip(2))
                &&& n == digits_val(key@.skip(2))
            },
            ResolveStep::NeedDetails(id) => {
                &&& !data.cache_map().dom().contains(key@)
                &&& !has_imdb_prefix(key@)
                &&& key@.len() > 0
                &&& all_dec_digits(key@)
                &&& id == digits_val(key@)
            },
            ResolveStep::Reject(e) => {
                &&& !data.cache_map().dom().contains(key@)
                &&& e is BadRequest
                &&& if has_imdb_prefix(key@) {
                    key@.len() == 2 || !all_dec_digits(key@.skip(2)) || digits_val(key@.skip(2))
                        > u32::MAX
                } else {
                    key@.len() == 0 || !all_dec_digits(key@) || digits_val(key@) > u64::MAX
                }
            },
        },
{
    match data.cache_lookup(key) {
        Some(m) => ResolveStep::Cached(m),
        None => match classify_lookup(key.as_str()) {
            Ok(LookupId::Imdb(n)) => ResolveStep::NeedFind(n),
            Ok(LookupId::Tmdb(id)) => ResolveStep::NeedDetails(id),
            Err(e) => ResolveStep::Reject(e),
        },
    }
}

/// Once a key's record has been memoized, a second resolution of the same
/// key is answered from the memo — the provider is consulted at most once
/// per lookup text.
pub proof fn lemma_second_resolve_is_cached(before: AppData, after: AppData, key: Seq<char>,
    m: Movie)
    requires
        after.cache_map() == before.cache_map().insert(key, m),
    ensures
        after.cache_map().dom().contains(key),
        after.cache_map()[key] == m,
{
}

/// Take the first movie the cross-reference lookup returned; none at all
/// is a `NotFound`.
pub fn find_step(found: &Vec<u64>) -> (r: Result<u64, StoreError>)
    ensures
        match r {
            Ok(id) => found@.len() > 0 && id == found@[0],
            Err(e) => e is NotFound && found@.len() == 0,
        },
{
    if found.len() > 0 {
        Ok(found[0])
    } else {
        Err(StoreError::NotFound)
    }
}

/// The platforms the provider's availability data names, in display
/// order: only the three recognized flat-rate providers are kept.
pub open spec fn spec_platforms(ids: Seq<u64>) -> Seq<Platform> {
    (if ids.contains(337) {
        seq![Platform::DisneyPlus]
    } else {
        Seq::empty()
    }) + (if ids.contains(8) {
        seq![Platform::Netflix]
    } else {
        Seq::empty()
    }) + (if ids.contains(119) {
        seq![Platform::PrimeVideo]
    } else {
        Seq::empty()
    })
}

/// Whether `v` holds `x`.
fn contains_u64(v: &Vec<u64>, x: u64) -> (r: bool)
    ensures
        r == v@.contains(x),
{
    let mut i: usize = 0;
    while i < v.len()
        invariant
            0 <= i <= v@.len(),
            forall|j: int| 0 <= j < i ==> v@[j] != x,
        decreases v@.len() - i,
    {
        if v[i] == x {
            return true;
        }
        i = i + 1;
    }
    false
}

/// Map the provider IDs of the availability answer to platforms:
/// Disney+ (337), Netflix (8) and Prime Video (119) are recognized,
/// everything else ignored.
pub fn platforms_from_providers(ids: &Vec<u64>) -> (r: Vec<Platform>)
    ensures
        r@ == spec_platforms(ids@),
        forall|i: int, j: int| 0 <= i < j < r@.len() ==> r@[i] != r@[j],
{
    let mut out: Vec<Platform> = Vec::new();
    if contains_u64(ids, 337) {
        out.push(Platform::DisneyPlus);
    }
    if contains_u64(ids, 8) {
        out.push(Platform::Netflix);
    }
    if contains_u64(ids, 119) {
        out.push(Platform::PrimeVideo);
    }
    proof {
        assert(out@ =~= spec_platforms(ids@));
    }
    out
}

/// `s` with every leading `t` removed.
pub open spec fn strip_leading_t(s: Seq<char>) -> Seq<char>
    decreases s.len(),
{
    if s.len() > 0 && s[0] == 't' {
        strip_leading_t(s.drop_first())
    } else {
        s
    }
}

/// The number a provider's cross-reference text (`tt0137523`-style)
/// denotes, or nothing if what follows the leading `t`s is not a number
/// that fits.
pub open spec fn imdb_ref_value(s: Seq<char>) -> Option<u32> {
    if strip_leading_t(s).len() > 0 && all_dec_digits(strip_leading_t(s)) && digits_val(
        strip_leading_t(s),
    ) <= u32::MAX {
        Some(digits_val(strip_leading_t(s)) as u32)
    } else {
        None
    }
}

/// Read the number out of a provider cross-reference text; an
/// unparsable text yields nothing rather than failing the caller.
pub fn parse_imdb_ref(s: &str) -> (r: Option<u32>)
    ensures
        r == imdb_ref_value(s@),
{
    let n = s.unicode_len();
    let mut i: usize = 0;
    proof {
        assert(s@.skip(0) =~= s@);
    }
    while i < n && s.get_char(i) == 't'
        invariant
            0 <= i <= n,
            n == s@.len(),
            strip_leading_t(s@) == strip_leading_t(s@.skip(i as int)),
        decreases n - i,
    {
        proof {
            assert(s@.skip(i as int).drop_first() =~= s@.skip(i + 1));
            assert(s@.skip(i as int)[0] == s@[i as int]);
        }
        i = i + 1;
    }
    proof {
        let rest = s@.skip(i as int);
        if rest.len() > 0 {
            assert(rest[0] == s@[i as int]);
        }
        assert(strip_leading_t(s@) == rest);
    }
    let rest = s.substring_char(i, n);
    parse_u32(rest)
}

/// What the provider's details answer contributes to a movie record, as
/// plain values: the caller has already encoded the release day and
/// defaulted an absent runtime to zero minutes.
#[derive(Debug, Clone, PartialEq)]
pub struct MovieDetails {
    pub tmdb_id: u64,
    pub imdb_ref: Option<String>,
    pub title: String,
    pub overview: String,
    pub poster_path: Option<String>,
    pub release_day: u64,
    pub runtime_min: u32,
    pub score_bits: u64,
}

/// Assemble the local movie record from the provider's details and
/// availability answers: fresh ratings and tags, the cross-reference
/// number read from its text where that text parses and absent where it
/// does not, and the runtime turned from minutes into seconds.
pub fn assemble_movie(d: MovieDetails, platforms: Vec<Platform>) -> (m: Movie)
    requires
        forall|i: int, j: int|
            0 <= i < j < platforms@.len() ==> platforms@[i] != platforms@[j],
    ensures
        m.wf(),
        m.tmdb_id == d.tmdb_id,
        m.imdb_id == match d.imdb_ref {
            Some(s) => imdb_ref_value(s@),
            None => None::<u32>,
        },
        m.title == d.title,
        m.description == d.overview,
        m.ratings@.len() == 0,
        m.tags@.len() == 0,
        m.platforms == platforms,
        m.poster == d.poster_path,
        m.release_date == d.release_day,
        m.runtime_secs == d.runtime_min as u64 * 60,
        m.score_bits == d.score_bits,
{
    let imdb_id = match &d.imdb_ref {
        Some(s) => parse_imdb_ref(s.as_str()),
        None => None,
    };
    Movie {
        imdb_id,
        tmdb_id: d.tmdb_id,
        title: d.title,
        description: d.overview,
        ratings: Vec::new(),
        tags: Vec::new(),
        platforms,
        poster: d.poster_path,
        release_date: d.release_day,
        runtime_secs: d.runtime_min as u64 * 60,
        score_bits: d.score_bits,
    }
}

/// `s` is nothing but ASCII whitespace.
pub open spec fn is_blank(s: Seq<char>) -> bool {
    forall|i: int|
        0 <= i < s.len() ==> (#[trigger] s[i] == ' ' || s[i] == '\t' || s[i] == '\n' || s[i]
            == '\r')
}

/// Whether a title search should reach the provider at all: a blank title
/// is answered with an empty result instead.
pub fn search_should_query(title: &str) -> (b: bool)
    ensures
        b == !is_blank(title@),
{
    let n = title.unicode_len();
    let mut i: usize = 0;
    while i < n
        invariant
            0 <= i <= n,
            n == title@.len(),
            forall|j: int|
                0 <= j < i ==> (#[trigger] title@[j] == ' ' || title@[j] == '\t' || title@[j]
                    == '\n' || title@[j] == '\r'),
        decreases n - i,
    {
        let c = title.get_char(i);
        if c != ' ' && c != '\t' && c != '\n' && c != '\r' {
            return true;
        }
        i = i + 1;
    }
    false
}

/// A provider failure, as plain values: transport failures arrive already
/// rendered, validation failures as the provider's message list, server
/// failures as the error body's code and message.
#[derive(Debug, Clone, PartialEq)]
pub enum ProviderError {
    Transport(String),
    Validation(Vec<String>),
    Server { code: u16, status_code: u64, status_message: String },
}

/// `parts` joined with `", "`.
pub open spec fn join_comma(parts: Seq<Seq<char>>) -> Seq<char>
    decreases parts.len(),
{
    if parts.len() == 0 {
        Seq::empty()
    } else if parts.len() == 1 {
        parts[0]
    } else {
        join_comma(parts.drop_last()) + ", "@ + parts.last()
    }
}

/// The one-line text a provider failure is reported as.
pub open spec fn provider_error_text(e: ProviderError) -> Seq<char> {
    match e {
        ProviderError::Transport(s) => s@,
        ProviderError::Validation(errs) => "server validation error: "@ + join_comma(
            errs@.map_values(|s: String| s@),
        ),
        ProviderError::Server { code, status_code, status_message } => "server error "@
            + dec_digits(code as nat) + ": "@ + dec_digits(status_code as nat) + " "@
            + status_message@,
    }
}

/// Render a provider failure as its one-line report.
pub fn err_to_string(e: &ProviderError) -> (r: String)
    ensures
        r@ == provider_error_text(*e),
{
    match e {
        ProviderError::Transport(s) => s.clone(),
        ProviderError::Validation(errs) => {
            let mut out = String::from_str("server validation error: ");
            let mut i: usize = 0;
            proof {
                reveal_strlit(", ");
            }
            while i < errs.len()
                invariant
                    0 <= i <= errs@.len(),
                    ", "@.len() == 2,
                    out@ == "server validation error: "@ + join_comma(
                        errs@.map_values(|s: String| s@).take(i as int),
                    ),
                decreases errs@.len() - i,
            {
                proof {
                    let all = errs@.map_values(|s: String| s@);
                    assert(all.take(i + 1).drop_last() =~= all.take(i as int));
                    assert(all.take(i + 1).last() == all[i as int]);
                    assert(all[i as int] == errs@[i as int]@);
                    if i == 0 {
                        assert(join_comma(all.take(1)) == all[0]);
                    }
                }
                if i > 0 {
                    out.append(", ");
                }
                out.append(errs[i].as_str());
                i = i + 1;
            }
            proof {
                let all = errs@.map_values(|s: String| s@);
                assert(all.take(all.len() as int) =~= all);
            }
            out
        },
        ProviderError::Server { code, status_code, status_message } => {
            let mut out = String::from_str("server error ");
            crate::decimal::push_decimal(*code as u64, &mut out);
            out.append(": ");
            crate::decimal::push_decimal(*status_code, &mut out);
            out.append(" ");
            out.append(status_message.as_str());
            proof {
                reveal_strlit(": ");
                reveal_strlit(" ");
            }
            out
        },
    }
}

} // verus!
