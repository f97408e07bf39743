//! OpenLibrary identifiers: the `OL<number><kind-letter>` scheme and the
//! `path/OL...` keys that carry them, with verified parsing and rendering.

use vstd::prelude::*;
use vstd::string::StrSliceExecFns;
use vstd::string::StringExecFns;

use crate::decimal::{all_dec_digits, dec_digits, digits_val, parse_u64};
use crate::error::StoreError;

verus! {

/// What an OpenLibrary identifier refers to.
#[derive(Debug, Clone, Copy, PartialEq, Eq, Structural)]
pub enum OlIdKind {
    Author,
    Book,
    Work,
}

/// The letter that ends the textual form of an identifier of this kind.
pub open spec fn kind_letter(k: OlIdKind) -> char {
    match k {
        OlIdKind::Author => 'A',
        OlIdKind::Book => 'M',
        OlIdKind::Work => 'W',
    }
}

/// An OpenLibrary identifier: a number and a kind, written `OL{id}{kind}`.
#[derive(Debug, Clone, Copy, PartialEq, Eq, Structural)]
pub struct OlId {
    pub id: u64,
    pub kind: OlIdKind,
}

/// `s` is a well-formed identifier text: `OL`, at least one digit, and a
/// kind letter, with the number fitting in a `u64`.
pub open spec fn valid_olid_text(s: Seq<char>) -> bool {
    &&& s.len() >= 4
    &&& s[0] == 'O'
    &&& s[1] == 'L'
    &&& all_dec_digits(s.subrange(2, s.len() - 1))
    &&& digits_val(s.subrange(2, s.len() - 1)) <= u64::MAX
    &&& (s.last() == 'A' || s.last() == 'M' || s.last() == 'W')
}

/// The identifier a well-formed text denotes.
pub open spec fn olid_of_text(s: Seq<char>) -> OlId {
    OlId {
        id: digits_val(s.subrange(2, s.len() - 1)) as u64,
        kind: if s.last() == 'A' {
            OlIdKind::Author
        } else if s.last() == 'M' {
            OlIdKind::Book
        } else {
            OlIdKind::Work
        },
    }
}

/// The one-character string for a kind letter.
fn kind_str(k: OlIdKind) -> (r: &'static str)
    ensures
        r@ =~= seq![kind_letter(k)],
{
    proof {
        reveal_strlit("A");
        reveal_strlit("M");
        reveal_strlit("W");
    }
    match k {
        OlIdKind::Author => "A",
        OlIdKind::Book => "M",
        OlIdKind::Work => "W",
    }
}

impl OlId {
    /// The canonical text of this identifier, `OL{id}{kind letter}`.
    pub open spec fn spec_text(&self) -> Seq<char> {
        "OL"@ + dec_digits(self.id as nat) + seq![kind_letter(self.kind)]
    }

    /// Render the identifier as `OL{id}{kind letter}`.
    pub fn to_text(&self) -> (r: String)
        ensures
            r@ == self.spec_text(),
    {
        proof {
            reveal_strlit("OL");
        }
        let mut out = String::from_str("OL");
        crate::decimal::push_decimal(self.id, &mut out);
        out.append(kind_str(self.kind));
        out
    }

    /// Parse `OL{digits}{A|M|W}`; any other shape is a `BadRequest`.
    pub fn from_text(s: &str) -> (r: Result<OlId, StoreError>)
        ensures
            match r {
                Ok(o) => valid_olid_text(s@) && o == olid_of_text(s@),
                Err(e) => !valid_olid_text(s@) && e is BadRequest,
            },
    {
        broadcast use vstd::string::group_string_axioms;

        if !s.is_ascii() {
            proof {
                let k = choose|k: int|
                    0 <= k < s@.len() && !('\0' <= #[trigger] s@[k] <= '\u{7f}');
                if valid_olid_text(s@) {
                    if 2 <= k < s@.len() - 1 {
                        assert(s@.subrange(2, s@.len() - 1)[k - 2] == s@[k]);
                    }
                }
            }
            return Err(StoreError::BadRequest);
        }
        let bytes = s.as_bytes();
        let n = bytes.len();
        if n < 4 {
            return Err(StoreError::BadRequest);
        }
        let b0 = bytes[0];
        let b1 = bytes[1];
        if b0 != 79 || b1 != 76 {
            return Err(StoreError::BadRequest);
        }
        let kb = bytes[n - 1];
        let kind = if kb == 65 {
            OlIdKind::Author
        } else if kb == 77 {
            OlIdKind::Book
        } else if kb == 87 {
            OlIdKind::Work
        } else {
            return Err(StoreError::BadRequest);
        };
        let digits = s.substring_ascii(2, n - 1);
        match parse_u64(digits) {
            Some(id) => Ok(OlId { id, kind }),
            None => Err(StoreError::BadRequest),
        }
    }
}

/// Rendering an identifier and parsing the text back yields the same
/// identifier: the textual form loses nothing.
pub proof fn lemma_olid_text_round_trip(id: OlId)
    ensures
        valid_olid_text(id.spec_text()),
        olid_of_text(id.spec_text()) == id,
{
    reveal_strlit("OL");
    crate::decimal::lemma_dec_digits_value(id.id as nat);
    let digits = dec_digits(id.id as nat);
    let text = id.spec_text();
    assert(text.len() == 2 + digits.len() + 1);
    assert(text[0] == 'O');
    assert(text[1] == 'L');
    assert(text.last() == kind_letter(id.kind));
    assert(text.subrange(2, text.len() - 1) =~= digits);
}

/// `i` is the position of the last `/` in `s`.
pub open spec fn is_last_slash(s: Seq<char>, i: int) -> bool {
    &&& 0 <= i < s.len()
    &&& s[i] == '/'
    &&& forall|j: int| i < j < s.len() ==> #[trigger] s[j] != '/'
}

/// `s` contains a `/`.
pub open spec fn has_slash(s: Seq<char>) -> bool {
    exists|i: int| 0 <= i < s.len() && #[trigger] s[i] == '/'
}

/// The position of the last `/` in `s` (meaningful when `has_slash`).
pub open spec fn last_slash(s: Seq<char>) -> int {
    choose|i: int| is_last_slash(s, i)
}

/// `s` is a well-formed key text: some path, a `/`, then an identifier.
pub open spec fn valid_key_text(s: Seq<char>) -> bool {
    &&& has_slash(s)
    &&& valid_olid_text(s.subrange(last_slash(s) + 1, s.len() as int))
}

/// A record key as OpenLibrary serves it: a path prefix and the identifier
/// after its final slash, written `{path}/{id}`.
#[derive(Debug, Clone, PartialEq, Eq)]
pub struct Key {
    pub path: String,
    pub id: OlId,
}

impl Key {
    /// The canonical text of this key, `{path}/OL{id}{kind letter}`.
    pub open spec fn spec_text(&self) -> Seq<char> {
        self.path@ + seq!['/'] + self.id.spec_text()
    }

    /// Render the key as `{path}/{identifier}`.
    pub fn to_text(&self) -> (r: String)
        ensures
            r@ == self.spec_text(),
    {
        proof {
            reveal_strlit("/");
        }
        let mut out = self.path.clone();
        out.append("/");
        let id_text = self.id.to_text();
        out.append(id_text.as_str());
        proof {
            assert(self.path@ + "/"@ + self.id.spec_text() =~= self.spec_text());
        }
        out
    }

    /// Parse `{path}/{identifier}`; a text without a slash, or whose tail
    /// after the last slash is not an identifier, is a `BadRequest`.
    pub fn from_text(s: &str) -> (r: Result<Key, StoreError>)
        ensures
            match r {
                Ok(k) => {
                    &&& valid_key_text(s@)
                    &&& k.path@ == s@.subrange(0, last_slash(s@))
                    &&& k.id == olid_of_text(s@.subrange(last_slash(s@) + 1, s@.len() as int))
                },
                Err(e) => !valid_key_text(s@) && e is BadRequest,
            },
    {
        let n = s.unicode_len();
        let mut i: usize = 0;
        let mut slash: Option<usize> = None;
        while i < n
            invariant
                0 <= i <= n,
                n == s@.len(),
                match slash {
                    Some(p) => p < i && s@[p as int] == '/' && (forall|j: int|
                        p < j < i ==> #[trigger] s@[j] != '/'),
                    None => forall|j: int| 0 <= j < i ==> #[trigger] s@[j] != '/',
                },
            decreases n - i,
        {
            let c = s.get_char(i);
            if c == '/' {
                slash = Some(i);
            }
            i = i + 1;
        }
        match slash {
            Some(p) => {
                proof {
                    assert(is_last_slash(s@, p as int));
                    let q = last_slash(s@);
                    assert(is_last_slash(s@, q));
                    if p as int != q {
                        if (p as int) < q {
                            assert(s@[q] != '/');
                        } else {
                            assert(s@[p as int] != '/');
                        }
                    }
                }
                let path_part = s.substring_char(0, p);
                let id_part = s.substring_char(p + 1, n);
                match OlId::from_text(id_part) {
                    Ok(id) => Ok(Key { path: String::from_str(path_part), id }),
                    Err(e) => Err(e),
                }
            },
            None => Err(StoreError::BadRequest),
        }
    }
}

/// Rendering a key and parsing the text back yields the same key: the
/// identifier never contains a slash, so the split lands exactly between
/// the path and the identifier.
pub proof fn lemma_key_text_round_trip(k: Key)
    ensures
        valid_key_text(k.spec_text()),
        k.spec_text().subrange(0, last_slash(k.spec_text())) == k.path@,
        olid_of_text(
            k.spec_text().subrange(last_slash(k.spec_text()) + 1, k.spec_text().len() as int),
        ) == k.id,
{
    reveal_strlit("OL");
    lemma_olid_text_round_trip(k.id);
    crate::decimal::lemma_dec_digits_value(k.id.id as nat);
    let text = k.spec_text();
    let id_text = k.id.spec_text();
    let p = k.path@.len() as int;
    assert(text.len() == p + 1 + id_text.len());
    assert(text[p] == '/');
    assert forall|j: int| p < j < text.len() implies #[trigger] text[j] != '/' by {
        let x = j - p - 1;
        assert(text[j] == id_text[x]);
        if x == 0 {
        } else if x == 1 {
        } else if x == id_text.len() - 1 {
        } else {
            let digits = dec_digits(k.id.id as nat);
            assert(id_text[x] == digits[x - 2]);
            assert(crate::decimal::is_dec_digit(digits[x - 2]));
        }
    }
    assert(is_last_slash(text, p));
    let q = last_slash(text);
    assert(is_last_slash(text, q));
    if p != q {
        if p < q {
            assert(text[q] != '/');
        } else {
            assert(text[p] != '/');
        }
    }
    assert(text.subrange(0, p) =~= k.path@);
    assert(text.subrange(p + 1, text.len() as int) =~= id_text);
}

/// A key as it appears wrapped in a `{"key": ...}` object.
#[derive(Debug, Clone, PartialEq, Eq)]
pub struct KeyedKey {
    pub key: Key,
}

impl From<Key> for KeyedKey {
    /// Wrap a key.
    fn from(key: Key) -> (r: KeyedKey) {
        KeyedKey { key }
    }
}

impl vstd::std_specs::convert::FromSpecImpl<Key> for KeyedKey {
    open spec fn obeys_from_spec() -> bool {
        true
    }

    open spec fn from_spec(key: Key) -> KeyedKey {
        KeyedKey { key }
    }
}

impl From<KeyedKey> for Key {
    /// Unwrap a key.
    fn from(value: KeyedKey) -> (r: Key) {
        value.key
    }
}

impl vstd::std_specs::convert::FromSpecImpl<KeyedKey> for Key {
    open spec fn obeys_from_spec() -> bool {
        true
    }

    open spec fn from_spec(value: KeyedKey) -> Key {
        value.key
    }
}

} // verus!
