//! Book records and the bibliographic identifier keys they are indexed by.

use vstd::prelude::*;

use crate::json::{
    all_entities, all_strings, arr_field, entity_name, field_of, int_array_ok, int_values,
    is_entity, json_from_str, opt_int, opt_int_ok, opt_str_ok, opt_string, req_str_ok,
    req_string, scalar_or_list, scalar_or_list_of, str_array_or_empty, str_field_val,
    str_values, strings_or_entities, strings_or_entities_of, u32_array_or_empty, Json,
};
use crate::models::{parsed_resource, path_segments_of, OpenLibraryModel, OpenLibraryResource};
use crate::{DecodeError, JsonDecodeError};
use crate::text::{split_char, split_string, str_eq, u32_dec_string};
use crate::{OpenLibraryError, ParseError};

verus! {

/// A restricted identifier used as the mapping key of "search by
/// identifier" bulk lookups, `"ACRONYM:value"` on the wire.
#[derive(Clone, Debug, PartialEq, Eq, Hash)]
pub enum BibliographyKey {
    ISBN(String),
    LCCN(String),
    OCLC(String),
    OLID(String),
}

/// The uppercase acronym of a bibliography key.
pub open spec fn key_acronym(k: BibliographyKey) -> Seq<char> {
    match k {
        BibliographyKey::ISBN(_) => "ISBN"@,
        BibliographyKey::LCCN(_) => "LCCN"@,
        BibliographyKey::OCLC(_) => "OCLC"@,
        BibliographyKey::OLID(_) => "OLID"@,
    }
}

/// The identifier value carried by a bibliography key.
pub open spec fn key_value(k: BibliographyKey) -> Seq<char> {
    match k {
        BibliographyKey::ISBN(v) => v@,
        BibliographyKey::LCCN(v) => v@,
        BibliographyKey::OCLC(v) => v@,
        BibliographyKey::OLID(v) => v@,
    }
}

/// The compact wire form of a bibliography key: `ACRONYM:value`.
pub open spec fn compact_of(k: BibliographyKey) -> Seq<char> {
    key_acronym(k) + seq![':'] + key_value(k)
}

/// Whether an acronym names one of the four supported bibliography keys.
pub open spec fn supported_acronym(a: Seq<char>) -> bool {
    a == "ISBN"@ || a == "LCCN"@ || a == "OCLC"@ || a == "OLID"@
}

impl BibliographyKey {
    /// Builds a key from an already-split `(acronym, value)` pair. Only the
    /// four supported acronyms are accepted, case-sensitively.
    pub fn from_tuple(pair: (String, String)) -> (r: Result<BibliographyKey, OpenLibraryError>)
        ensures
            match r {
                Ok(k) => supported_acronym(pair.0@) && key_acronym(k) == pair.0@ && key_value(k)
                    == pair.1@,
                Err(OpenLibraryError::ParsingError { reason: _ }) => !supported_acronym(pair.0@),
                Err(_) => false,
            },
    {
        let (key, value) = pair;
        if str_eq(key.as_str(), "ISBN") {
            Ok(BibliographyKey::ISBN(value))
        } else if str_eq(key.as_str(), "LCCN") {
            Ok(BibliographyKey::LCCN(value))
        } else if str_eq(key.as_str(), "OCLC") {
            Ok(BibliographyKey::OCLC(value))
        } else if str_eq(key.as_str(), "OLID") {
            Ok(BibliographyKey::OLID(value))
        } else {
            let mut reason = String::from_str(
                "Unable to determine bibliography key from specific value (",
            );
            reason.append(value.as_str());
            reason.append(")");
            Err(OpenLibraryError::ParsingError { reason })
        }
    }

    /// Parses the compact `"ACRONYM:value"` form: exactly one colon with a
    /// non-empty string on each side, and one of the four supported
    /// acronyms on the left.
    pub fn parse_compact(s: &str) -> (r: Result<BibliographyKey, ParseError>)
        ensures
            ({
                let chunks = split_char(s@, ':');
                let well_formed = chunks.len() == 2 && chunks[0].len() > 0 && chunks[1].len() > 0;
                match r {
                    Ok(k) => well_formed && key_acronym(k) == chunks[0] && key_value(k)
                        == chunks[1],
                    Err(ParseError::UnsupportedBibliographyKey { acronym }) => well_formed
                        && !supported_acronym(chunks[0]) && acronym@ == chunks[0],
                    Err(ParseError::MalformedIdentifier { raw }) => !well_formed && raw@ == s@,
                    Err(_) => false,
                }
            }),
    {
        let mut pieces = split_string(s, ':');
        if pieces.len() != 2 {
            return Err(ParseError::MalformedIdentifier { raw: String::from_str(s) });
        }
        if pieces[0].as_str().is_empty() || pieces[1].as_str().is_empty() {
            return Err(ParseError::MalformedIdentifier { raw: String::from_str(s) });
        }
        let value = pieces.pop().unwrap();
        let key = pieces.pop().unwrap();
        if str_eq(key.as_str(), "ISBN") {
            Ok(BibliographyKey::ISBN(value))
        } else if str_eq(key.as_str(), "LCCN") {
            Ok(BibliographyKey::LCCN(value))
        } else if str_eq(key.as_str(), "OCLC") {
            Ok(BibliographyKey::OCLC(value))
        } else if str_eq(key.as_str(), "OLID") {
            Ok(BibliographyKey::OLID(value))
        } else {
            Err(ParseError::UnsupportedBibliographyKey { acronym: key })
        }
    }

    /// Serializes back to the compact `"ACRONYM:value"` form.
    pub fn to_compact(&self) -> (r: String)
        ensures
            r@ == compact_of(*self),
    {
        let mut out = match self {
            BibliographyKey::ISBN(_) => String::from_str("ISBN:"),
            BibliographyKey::LCCN(_) => String::from_str("LCCN:"),
            BibliographyKey::OCLC(_) => String::from_str("OCLC:"),
            BibliographyKey::OLID(_) => String::from_str("OLID:"),
        };
        proof {
            reveal_strlit("ISBN:");
            reveal_strlit("LCCN:");
            reveal_strlit("OCLC:");
            reveal_strlit("OLID:");
            reveal_strlit("ISBN");
            reveal_strlit("LCCN");
            reveal_strlit("OCLC");
            reveal_strlit("OLID");
            assert(out@ =~= key_acronym(*self) + seq![':']);
        }
        match self {
            BibliographyKey::ISBN(v) => out.append(v.as_str()),
            BibliographyKey::LCCN(v) => out.append(v.as_str()),
            BibliographyKey::OCLC(v) => out.append(v.as_str()),
            BibliographyKey::OLID(v) => out.append(v.as_str()),
        }
        proof {
            assert(out@ =~= compact_of(*self));
        }
        out
    }
}

/// A value is storable in compact form when it is non-empty and free of
/// colons: exactly then the compact form splits back into two parts.
pub open spec fn canonical_key(k: BibliographyKey) -> bool {
    &&& key_value(k).len() > 0
    &&& forall|i: int| 0 <= i < key_value(k).len() ==> key_value(k)[i] != ':'
}

/// Round trip of the compact form: for a canonical key, `compact_of(k)`
/// splits at `':'` into exactly `[acronym, value]`, both non-empty, and the
/// acronym is supported. Together with the contracts of `parse_compact` and
/// `to_compact` this says that parsing a serialized key returns the key, and
/// serializing a parsed compact string returns the input string.
pub proof fn lemma_compact_round_trip(k: BibliographyKey)
    requires
        canonical_key(k),
    ensures
        split_char(compact_of(k), ':') =~= seq![key_acronym(k), key_value(k)],
        supported_acronym(key_acronym(k)),
{
    let s = compact_of(k);
    let a = key_acronym(k);
    let v = key_value(k);
    reveal_strlit("ISBN");
    reveal_strlit("LCCN");
    reveal_strlit("OCLC");
    reveal_strlit("OLID");
    assert(forall|i: int| 0 <= i < a.len() ==> a[i] != ':');
    crate::text::lemma_split_char_first(s, ':', a.len() as int);
    let s1 = s.subrange(a.len() as int + 1, s.len() as int);
    assert(s1 =~= v);
    crate::text::lemma_split_char_first(s1, ':', s1.len() as int);
    assert(s.subrange(0, a.len() as int) =~= a);
}

/// The acronym pins the scheme: two keys with one acronym are the same
/// variant. With the contract of `parse_compact`, parsing a serialized key
/// gives back a key of the same scheme carrying the same characters.
pub proof fn lemma_key_identity(a: BibliographyKey, b: BibliographyKey)
    requires
        key_acronym(a) == key_acronym(b),
    ensures
        a is ISBN <==> b is ISBN,
        a is LCCN <==> b is LCCN,
        a is OCLC <==> b is OCLC,
        a is OLID <==> b is OLID,
{
    reveal_strlit("ISBN");
    reveal_strlit("LCCN");
    reveal_strlit("OCLC");
    reveal_strlit("OLID");
    let ta = key_acronym(a);
    let tb = key_acronym(b);
    match a {
        BibliographyKey::ISBN(_) => match b {
            BibliographyKey::ISBN(_) => {},
            _ => {
                assert(ta[0] != tb[0]);
            },
        },
        BibliographyKey::LCCN(_) => match b {
            BibliographyKey::LCCN(_) => {},
            _ => {
                assert(ta[0] != tb[0]);
            },
        },
        BibliographyKey::OCLC(_) => match b {
            BibliographyKey::OCLC(_) => {},
            BibliographyKey::OLID(_) => {
                assert(ta[1] != tb[1]);
            },
            _ => {
                assert(ta[0] != tb[0]);
            },
        },
        BibliographyKey::OLID(_) => match b {
            BibliographyKey::OLID(_) => {},
            BibliographyKey::OCLC(_) => {
                assert(ta[1] != tb[1]);
            },
            _ => {
                assert(ta[0] != tb[0]);
            },
        },
    }
}

/// The identifier schemes under which a book record lists its identifiers,
/// one lowercase wire token each.
#[derive(Clone, Copy, Debug, PartialEq, Eq, Hash)]
pub enum BookIdentifierKey {
    InternationalStandard10,
    InternationalStandard13,
    LibraryOfCongress,
    OhioCollegeLibraryCenter,
    GoodReads,
    OpenLibrary,
    LibraryThing,
    ProjectGutenberg,
    WikiData,
}

/// The lowercase wire token of an identifier key, as it appears in the JSON
/// object keys of book payloads.
pub open spec fn wire_token_of(k: BookIdentifierKey) -> Seq<char> {
    match k {
        BookIdentifierKey::InternationalStandard10 => "isbn_10"@,
        BookIdentifierKey::InternationalStandard13 => "isbn_13"@,
        BookIdentifierKey::LibraryOfCongress => "lccn"@,
        BookIdentifierKey::OhioCollegeLibraryCenter => "oclc"@,
        BookIdentifierKey::GoodReads => "goodreads"@,
        BookIdentifierKey::OpenLibrary => "openlibrary"@,
        BookIdentifierKey::LibraryThing => "librarything"@,
        BookIdentifierKey::ProjectGutenberg => "project_gutenberg"@,
        BookIdentifierKey::WikiData => "wikidata"@,
    }
}

/// The uppercase compact-form acronym of an identifier key, for the subset
/// of schemes that take part in compact identifiers.
pub open spec fn acronym_of(k: BookIdentifierKey) -> Option<Seq<char>> {
    match k {
        BookIdentifierKey::InternationalStandard10 => Some("ISBN"@),
        BookIdentifierKey::InternationalStandard13 => Some("ISBN"@),
        BookIdentifierKey::LibraryOfCongress => Some("LCCN"@),
        BookIdentifierKey::OhioCollegeLibraryCenter => Some("OCLC"@),
        BookIdentifierKey::OpenLibrary => Some("OLID"@),
        _ => None,
    }
}

impl BookIdentifierKey {
    /// Parses a lowercase wire token, case-sensitively.
    pub fn parse_key(token: &str) -> (r: Result<BookIdentifierKey, ParseError>)
        ensures
            match r {
                Ok(k) => wire_token_of(k) == token@,
                Err(ParseError::UnknownIdentifierKey { token: t }) => t@ == token@ && forall|
                    k: BookIdentifierKey,
                |
                    wire_token_of(k) != token@,
                Err(_) => false,
            },
    {
        let r = if str_eq(token, "isbn_10") {
            Ok(BookIdentifierKey::InternationalStandard10)
        } else if str_eq(token, "isbn_13") {
            Ok(BookIdentifierKey::InternationalStandard13)
        } else if str_eq(token, "lccn") {
            Ok(BookIdentifierKey::LibraryOfCongress)
        } else if str_eq(token, "oclc") {
            Ok(BookIdentifierKey::OhioCollegeLibraryCenter)
        } else if str_eq(token, "goodreads") {
            Ok(BookIdentifierKey::GoodReads)
        } else if str_eq(token, "openlibrary") {
            Ok(BookIdentifierKey::OpenLibrary)
        } else if str_eq(token, "librarything") {
            Ok(BookIdentifierKey::LibraryThing)
        } else if str_eq(token, "project_gutenberg") {
            Ok(BookIdentifierKey::ProjectGutenberg)
        } else if str_eq(token, "wikidata") {
            Ok(BookIdentifierKey::WikiData)
        } else {
            Err(ParseError::UnknownIdentifierKey { token: String::from_str(token) })
        };
        proof {
            if r is Err {
                assert forall|k: BookIdentifierKey| wire_token_of(k) != token@ by {
                    match k {
                        BookIdentifierKey::InternationalStandard10 => {},
                        BookIdentifierKey::InternationalStandard13 => {},
                        BookIdentifierKey::LibraryOfCongress => {},
                        BookIdentifierKey::OhioCollegeLibraryCenter => {},
                        BookIdentifierKey::GoodReads => {},
                        BookIdentifierKey::OpenLibrary => {},
                        BookIdentifierKey::LibraryThing => {},
                        BookIdentifierKey::ProjectGutenberg => {},
                        BookIdentifierKey::WikiData => {},
                    }
                }
            }
        }
        r
    }

    /// The lowercase wire token of this key.
    pub fn wire_token(&self) -> (r: String)
        ensures
            r@ == wire_token_of(*self),
    {
        match self {
            BookIdentifierKey::InternationalStandard10 => String::from_str("isbn_10"),
            BookIdentifierKey::InternationalStandard13 => String::from_str("isbn_13"),
            BookIdentifierKey::LibraryOfCongress => String::from_str("lccn"),
            BookIdentifierKey::OhioCollegeLibraryCenter => String::from_str("oclc"),
            BookIdentifierKey::GoodReads => String::from_str("goodreads"),
            BookIdentifierKey::OpenLibrary => String::from_str("openlibrary"),
            BookIdentifierKey::LibraryThing => String::from_str("librarything"),
            BookIdentifierKey::ProjectGutenberg => String::from_str("project_gutenberg"),
            BookIdentifierKey::WikiData => String::from_str("wikidata"),
        }
    }

    /// The uppercase compact-form acronym, for the schemes that have one.
    pub fn acronym(&self) -> (r: Option<String>)
        ensures
            match r {
                Some(a) => acronym_of(*self) == Some(a@),
                None => acronym_of(*self) is None,
            },
    {
        match self {
            BookIdentifierKey::InternationalStandard10 => Some(String::from_str("ISBN")),
            BookIdentifierKey::InternationalStandard13 => Some(String::from_str("ISBN")),
            BookIdentifierKey::LibraryOfCongress => Some(String::from_str("LCCN")),
            BookIdentifierKey::OhioCollegeLibraryCenter => Some(String::from_str("OCLC")),
            BookIdentifierKey::OpenLibrary => Some(String::from_str("OLID")),
            _ => None,
        }
    }

    /// Classifies an ISBN value by its length: ten digits or thirteen.
    pub fn from_isbn(value: &str) -> (r: Result<BookIdentifierKey, OpenLibraryError>)
        ensures
            match r {
                Ok(k) => (value@.len() == 10 && k == BookIdentifierKey::InternationalStandard10)
                    || (value@.len() == 13 && k == BookIdentifierKey::InternationalStandard13),
                Err(OpenLibraryError::ParsingError { reason: _ }) => value@.len() != 10
                    && value@.len() != 13,
                Err(_) => false,
            },
    {
        let n = value.unicode_len();
        if n == 10 {
            Ok(BookIdentifierKey::InternationalStandard10)
        } else if n == 13 {
            Ok(BookIdentifierKey::InternationalStandard13)
        } else {
            let mut reason = String::from_str("Invalid length (");
            if n <= u32::MAX as usize {
                let digits = u32_dec_string(n as u32);
                reason.append(digits.as_str());
            }
            reason.append(") for ISBN");
            Err(OpenLibraryError::ParsingError { reason })
        }
    }
}

/// The wire-token / acronym mapping is a bijection on the compact subset:
/// distinct schemes never share a wire token, and the compact acronyms
/// `LCCN`, `OCLC` and `OLID` each name exactly one scheme (`ISBN` names the
/// two ISBN lengths).
pub proof fn lemma_key_tokens_injective(a: BookIdentifierKey, b: BookIdentifierKey)
    requires
        wire_token_of(a) == wire_token_of(b),
    ensures
        a == b,
{
    reveal_strlit("isbn_10");
    reveal_strlit("isbn_13");
    reveal_strlit("lccn");
    reveal_strlit("oclc");
    reveal_strlit("goodreads");
    reveal_strlit("openlibrary");
    reveal_strlit("librarything");
    reveal_strlit("project_gutenberg");
    reveal_strlit("wikidata");
    let ta = wire_token_of(a);
    let tb = wire_token_of(b);
    match a {
        BookIdentifierKey::InternationalStandard10 => match b {
            BookIdentifierKey::InternationalStandard10 => {},
            BookIdentifierKey::InternationalStandard13 => {
                assert(ta[6] != tb[6]);
            },
            _ => {
                assert(ta.len() != tb.len());
            },
        },
        BookIdentifierKey::InternationalStandard13 => match b {
            BookIdentifierKey::InternationalStandard13 => {},
            BookIdentifierKey::InternationalStandard10 => {
                assert(ta[6] != tb[6]);
            },
            _ => {
                assert(ta.len() != tb.len());
            },
        },
        BookIdentifierKey::LibraryOfCongress => match b {
            BookIdentifierKey::LibraryOfCongress => {},
            BookIdentifierKey::OhioCollegeLibraryCenter => {
                assert(ta[0] != tb[0]);
            },
            _ => {
                assert(ta.len() != tb.len());
            },
        },
        BookIdentifierKey::OhioCollegeLibraryCenter => match b {
            BookIdentifierKey::OhioCollegeLibraryCenter => {},
            BookIdentifierKey::LibraryOfCongress => {
                assert(ta[0] != tb[0]);
            },
            _ => {
                assert(ta.len() != tb.len());
            },
        },
        BookIdentifierKey::GoodReads => match b {
            BookIdentifierKey::GoodReads => {},
            _ => {
                assert(ta.len() != tb.len());
            },
        },
        BookIdentifierKey::OpenLibrary => match b {
            BookIdentifierKey::OpenLibrary => {},
            _ => {
                assert(ta.len() != tb.len());
            },
        },
        BookIdentifierKey::LibraryThing => match b {
            BookIdentifierKey::LibraryThing => {},
            _ => {
                assert(ta.len() != tb.len());
            },
        },
        BookIdentifierKey::ProjectGutenberg => match b {
            BookIdentifierKey::ProjectGutenberg => {},
            _ => {
                assert(ta.len() != tb.len());
            },
        },
        BookIdentifierKey::WikiData => match b {
            BookIdentifierKey::WikiData => {},
            _ => {
                assert(ta.len() != tb.len());
            },
        },
    }
}

/// An author reference attached to a book record; every field is optional
/// on the wire.
#[derive(Clone, Debug, PartialEq, Eq)]
pub struct Author {
    pub key: Option<OpenLibraryResource>,
    pub name: Option<String>,
    pub url: Option<String>,
}

/// A named subject attached to a book record, with an optional link.
#[derive(Clone, Debug, PartialEq, Eq)]
pub struct Entity {
    pub name: String,
    pub url: Option<String>,
}

/// Dewey and Library-of-Congress classification codes of a book.
#[derive(Clone, Debug, PartialEq, Eq)]
pub struct Classifications {
    pub dewey_decimal: Vec<String>,
    pub library_of_congress: Vec<String>,
}

impl Classifications {
    /// Whether both code lists are empty, the state an absent field
    /// defaults to.
    pub fn is_default(&self) -> (r: bool)
        ensures
            r == (self.dewey_decimal@.len() == 0 && self.library_of_congress@.len() == 0),
    {
        self.dewey_decimal.is_empty() && self.library_of_congress.is_empty()
    }
}

impl Default for Classifications {
    /// Both code lists empty.
    fn default() -> (r: Classifications)
        ensures
            r.dewey_decimal@.len() == 0,
            r.library_of_congress@.len() == 0,
    {
        Classifications { dewey_decimal: Vec::new(), library_of_congress: Vec::new() }
    }
}

/// An electronic edition attached to a book record.
#[derive(Clone, Debug, PartialEq, Eq)]
pub struct ElectronicBook {
    pub preview_url: String,
    pub availability: String,
}

/// A quoted excerpt attached to a book record.
#[derive(Clone, Debug, PartialEq, Eq)]
pub struct Excerpt {
    pub comment: String,
    pub text: String,
}

/// Shape of an author reference: three optional fields, the `key` a path
/// identifier when present.
pub open spec fn book_author_ok(j: Json) -> bool {
    &&& j is Obj
    &&& match field_of(j, "key"@) {
        None => true,
        Some(Json::Null) => true,
        Some(Json::Str(s)) => crate::models::path_parses(s@),
        Some(_) => false,
    }
    &&& opt_str_ok(j, "name"@)
    &&& opt_str_ok(j, "url"@)
}

/// How a decoded author reference relates to its record.
pub open spec fn book_author_matches(a: Author, j: Json) -> bool {
    &&& match field_of(j, "key"@) {
        Some(Json::Str(s)) => (a.key matches Some(res) && parsed_resource(
            res,
            path_segments_of(s@),
        )),
        _ => a.key is None,
    }
    &&& match field_of(j, "name"@) {
        Some(Json::Str(s)) => (a.name matches Some(t) && t@ == s@),
        _ => a.name is None,
    }
    &&& match field_of(j, "url"@) {
        Some(Json::Str(s)) => (a.url matches Some(t) && t@ == s@),
        _ => a.url is None,
    }
}

/// Decodes one author reference.
pub fn decode_book_author(j: &Json) -> (r: Result<Author, DecodeError>)
    ensures
        match r {
            Ok(a) => book_author_ok(*j) && book_author_matches(a, *j),
            Err(_) => !book_author_ok(*j),
        },
{
    match j {
        Json::Obj(_) => {},
        _ => {
            return Err(DecodeError::Json(JsonDecodeError { field: String::from_str("authors") }));
        },
    }
    let key = match j.get("key") {
        None => None,
        Some(Json::Null) => None,
        Some(Json::Str(s)) => match OpenLibraryResource::parse_path(s.as_str()) {
            Ok(res) => Some(res),
            Err(e) => {
                return Err(DecodeError::Parse(e));
            },
        },
        Some(_) => {
            return Err(DecodeError::Json(JsonDecodeError { field: String::from_str("key") }));
        },
    };
    let name = match opt_string(j, "name") {
        Ok(v) => v,
        Err(e) => {
            return Err(DecodeError::Json(e));
        },
    };
    let url = match opt_string(j, "url") {
        Ok(v) => v,
        Err(e) => {
            return Err(DecodeError::Json(e));
        },
    };
    Ok(Author { key, name, url })
}

/// How a decoded entity relates to its record.
pub open spec fn entity_matches(e: Entity, j: Json) -> bool {
    &&& e.name@ == entity_name(j)
    &&& match field_of(j, "url"@) {
        Some(Json::Str(s)) => (e.url matches Some(t) && t@ == s@),
        _ => e.url is None,
    }
}

/// Decodes one entity object.
pub fn decode_entity(j: &Json) -> (r: Result<Entity, DecodeError>)
    ensures
        match r {
            Ok(e) => is_entity(*j) && entity_matches(e, *j),
            Err(_) => !is_entity(*j),
        },
{
    let name = match j.get("name") {
        Some(Json::Str(s)) => s.clone(),
        Some(_) => {
            return Err(DecodeError::Json(JsonDecodeError { field: String::from_str("name") }));
        },
        None => {
            return Err(DecodeError::Json(JsonDecodeError { field: String::from_str("name") }));
        },
    };
    let url = match j.get("url") {
        None => None,
        Some(Json::Null) => None,
        Some(Json::Str(s)) => Some(s.clone()),
        Some(_) => {
            return Err(DecodeError::Json(JsonDecodeError { field: String::from_str("url") }));
        },
    };
    Ok(Entity { name, url })
}

/// Shape of an array-of-entities field that defaults to empty.
pub open spec fn entity_array_ok(j: Json, key: Seq<char>) -> bool {
    match field_of(j, key) {
        None => true,
        Some(Json::Arr(v)) => all_entities(v@),
        Some(_) => false,
    }
}

/// How a decoded entity list relates to its field.
pub open spec fn entity_array_matches(out: Seq<Entity>, j: Json, key: Seq<char>) -> bool {
    &&& out.len() == arr_field(j, key).len()
    &&& forall|i: int| 0 <= i < out.len() ==> entity_matches(#[trigger] out[i], arr_field(j, key)[i])
}

/// Decodes an array-of-entities field, an absent field giving the empty
/// list.
#[verifier::loop_isolation(false)]
pub fn decode_entity_array(j: &Json, key: &str) -> (r: Result<Vec<Entity>, DecodeError>)
    ensures
        match r {
            Ok(out) => entity_array_ok(*j, key@) && entity_array_matches(out@, *j, key@),
            Err(_) => !entity_array_ok(*j, key@),
        },
{
    let arr = match j.get(key) {
        None => {
            let out: Vec<Entity> = Vec::new();
            return Ok(out);
        },
        Some(Json::Arr(v)) => v,
        Some(_) => {
            return Err(DecodeError::Json(JsonDecodeError { field: String::from_str(key) }));
        },
    };
    let mut out: Vec<Entity> = Vec::new();
    let mut i: usize = 0;
    while i < arr.len()
        invariant
            i <= arr.len(),
            out@.len() == i,
            forall|k: int| 0 <= k < i ==> is_entity(#[trigger] arr@[k]),
            forall|k: int| 0 <= k < i ==> entity_matches(#[trigger] out@[k], arr@[k]),
        decreases arr.len() - i,
    {
        match decode_entity(&arr[i]) {
            Ok(e) => {
                out.push(e);
            },
            Err(e) => {
                proof {
                    assert(!is_entity(arr@[i as int]));
                }
                return Err(e);
            },
        }
        i += 1;
    }
    Ok(out)
}

/// Shape of a two-string excerpt record.
pub open spec fn excerpt_ok(j: Json) -> bool {
    req_str_ok(j, "comment"@) && req_str_ok(j, "text"@)
}

pub open spec fn excerpt_matches(e: Excerpt, j: Json) -> bool {
    e.comment@ == str_field_val(j, "comment"@) && e.text@ == str_field_val(j, "text"@)
}

/// Shape of a two-string hyperlink record.
pub open spec fn link_ok(j: Json) -> bool {
    req_str_ok(j, "url"@) && req_str_ok(j, "title"@)
}

pub open spec fn link_matches(l: crate::models::Link, j: Json) -> bool {
    l.url@ == str_field_val(j, "url"@) && l.title@ == str_field_val(j, "title"@)
}

/// Shape of a two-string electronic-edition record.
pub open spec fn ebook_ok(j: Json) -> bool {
    req_str_ok(j, "preview_url"@) && req_str_ok(j, "availability"@)
}

pub open spec fn ebook_matches(e: ElectronicBook, j: Json) -> bool {
    e.preview_url@ == str_field_val(j, "preview_url"@) && e.availability@ == str_field_val(
        j,
        "availability"@,
    )
}

/// Decodes an array-of-excerpts field, an absent field giving the empty
/// list.
#[verifier::loop_isolation(false)]
pub fn decode_excerpts(j: &Json) -> (r: Result<Vec<Excerpt>, DecodeError>)
    ensures
        match r {
            Ok(out) => ({
                let v = arr_field(*j, "excerpts"@);
                &&& match field_of(*j, "excerpts"@) {
                    None => true,
                    Some(Json::Arr(_)) => true,
                    Some(_) => false,
                }
                &&& forall|i: int| 0 <= i < v.len() ==> excerpt_ok(#[trigger] v[i])
                &&& out@.len() == v.len()
                &&& forall|i: int| 0 <= i < v.len() ==> excerpt_matches(#[trigger] out@[i], v[i])
            }),
            Err(_) => !match field_of(*j, "excerpts"@) {
                None => true,
                Some(Json::Arr(v)) => forall|i: int| 0 <= i < v@.len() ==> excerpt_ok(
                    #[trigger] v@[i],
                ),
                Some(_) => false,
            },
        },
{
    let arr = match j.get("excerpts") {
        None => {
            let out: Vec<Excerpt> = Vec::new();
            return Ok(out);
        },
        Some(Json::Arr(v)) => v,
        Some(_) => {
            return Err(DecodeError::Json(JsonDecodeError { field: String::from_str("excerpts") }));
        },
    };
    let mut out: Vec<Excerpt> = Vec::new();
    let mut i: usize = 0;
    while i < arr.len()
        invariant
            i <= arr.len(),
            out@.len() == i,
            forall|k: int| 0 <= k < i ==> excerpt_ok(#[trigger] arr@[k]),
            forall|k: int| 0 <= k < i ==> excerpt_matches(#[trigger] out@[k], arr@[k]),
        decreases arr.len() - i,
    {
        let comment = match req_string(&arr[i], "comment") {
            Ok(s) => s,
            Err(e) => {
                proof {
                    assert(!excerpt_ok(arr@[i as int]));
                }
                return Err(DecodeError::Json(e));
            },
        };
        let body = match req_string(&arr[i], "text") {
            Ok(s) => s,
            Err(e) => {
                proof {
                    assert(!excerpt_ok(arr@[i as int]));
                }
                return Err(DecodeError::Json(e));
            },
        };
        out.push(Excerpt { comment, text: body });
        i += 1;
    }
    Ok(out)
}

/// Decodes an array-of-links field, an absent field giving the empty list.
#[verifier::loop_isolation(false)]
pub fn decode_links(j: &Json) -> (r: Result<Vec<crate::models::Link>, DecodeError>)
    ensures
        match r {
            Ok(out) => ({
                let v = arr_field(*j, "links"@);
                &&& match field_of(*j, "links"@) {
                    None => true,
                    Some(Json::Arr(_)) => true,
                    Some(_) => false,
                }
                &&& forall|i: int| 0 <= i < v.len() ==> link_ok(#[trigger] v[i])
                &&& out@.len() == v.len()
                &&& forall|i: int| 0 <= i < v.len() ==> link_matches(#[trigger] out@[i], v[i])
            }),
            Err(_) => !match field_of(*j, "links"@) {
                None => true,
                Some(Json::Arr(v)) => forall|i: int| 0 <= i < v@.len() ==> link_ok(
                    #[trigger] v@[i],
                ),
                Some(_) => false,
            },
        },
{
    let arr = match j.get("links") {
        None => {
            let out: Vec<crate::models::Link> = Vec::new();
            return Ok(out);
        },
        Some(Json::Arr(v)) => v,
        Some(_) => {
            return Err(DecodeError::Json(JsonDecodeError { field: String::from_str("links") }));
        },
    };
    let mut out: Vec<crate::models::Link> = Vec::new();
    let mut i: usize = 0;
    while i < arr.len()
        invariant
            i <= arr.len(),
            out@.len() == i,
            forall|k: int| 0 <= k < i ==> link_ok(#[trigger] arr@[k]),
            forall|k: int| 0 <= k < i ==> link_matches(#[trigger] out@[k], arr@[k]),
        decreases arr.len() - i,
    {
        let url = match req_string(&arr[i], "url") {
            Ok(s) => s,
            Err(e) => {
                proof {
                    assert(!link_ok(arr@[i as int]));
                }
                return Err(DecodeError::Json(e));
            },
        };
        let title = match req_string(&arr[i], "title") {
            Ok(s) => s,
            Err(e) => {
                proof {
                    assert(!link_ok(arr@[i as int]));
                }
                return Err(DecodeError::Json(e));
            },
        };
        out.push(crate::models::Link { url, title });
        i += 1;
    }
    Ok(out)
}

/// Decodes an array-of-editions field, an absent field giving the empty
/// list.
#[verifier::loop_isolation(false)]
pub fn decode_ebooks(j: &Json) -> (r: Result<Vec<ElectronicBook>, DecodeError>)
    ensures
        match r {
            Ok(out) => ({
                let v = arr_field(*j, "ebooks"@);
                &&& match field_of(*j, "ebooks"@) {
                    None => true,
                    Some(Json::Arr(_)) => true,
                    Some(_) => false,
                }
                &&& forall|i: int| 0 <= i < v.len() ==> ebook_ok(#[trigger] v[i])
                &&& out@.len() == v.len()
                &&& forall|i: int| 0 <= i < v.len() ==> ebook_matches(#[trigger] out@[i], v[i])
            }),
            Err(_) => !match field_of(*j, "ebooks"@) {
                None => true,
                Some(Json::Arr(v)) => forall|i: int| 0 <= i < v@.len() ==> ebook_ok(
                    #[trigger] v@[i],
                ),
                Some(_) => false,
            },
        },
{
    let arr = match j.get("ebooks") {
        None => {
            let out: Vec<ElectronicBook> = Vec::new();
            return Ok(out);
        },
        Some(Json::Arr(v)) => v,
        Some(_) => {
            return Err(DecodeError::Json(JsonDecodeError { field: String::from_str("ebooks") }));
        },
    };
    let mut out: Vec<ElectronicBook> = Vec::new();
    let mut i: usize = 0;
    while i < arr.len()
        invariant
            i <= arr.len(),
            out@.len() == i,
            forall|k: int| 0 <= k < i ==> ebook_ok(#[trigger] arr@[k]),
            forall|k: int| 0 <= k < i ==> ebook_matches(#[trigger] out@[k], arr@[k]),
        decreases arr.len() - i,
    {
        let preview_url = match req_string(&arr[i], "preview_url") {
            Ok(s) => s,
            Err(e) => {
                proof {
                    assert(!ebook_ok(arr@[i as int]));
                }
                return Err(DecodeError::Json(e));
            },
        };
        let availability = match req_string(&arr[i], "availability") {
            Ok(s) => s,
            Err(e) => {
                proof {
                    assert(!ebook_ok(arr@[i as int]));
                }
                return Err(DecodeError::Json(e));
            },
        };
        out.push(ElectronicBook { preview_url, availability });
        i += 1;
    }
    Ok(out)
}

/// A wire token that names some identifier scheme.
pub open spec fn known_wire_token(s: Seq<char>) -> bool {
    exists|k: BookIdentifierKey| wire_token_of(k) == s
}

/// Shape of the `identifiers` field: an object from wire tokens to string
/// arrays, defaulting to empty.
pub open spec fn identifiers_ok(j: Json) -> bool {
    match field_of(j, "identifiers"@) {
        None => true,
        Some(Json::Obj(fs)) => forall|i: int|
            0 <= i < fs@.len() ==> known_wire_token((#[trigger] fs@[i]).0@) && (fs@[i].1
                matches Json::Arr(v) && all_strings(v@)),
        Some(_) => false,
    }
}

/// How a decoded identifier table relates to its field.
pub open spec fn identifiers_matches(
    ids: Seq<(BookIdentifierKey, Vec<String>)>,
    j: Json,
) -> bool {
    let fs = crate::json::obj_fields(j, "identifiers"@);
    &&& ids.len() == fs.len()
    &&& forall|i: int|
        0 <= i < ids.len() ==> wire_token_of((#[trigger] ids[i]).0) == fs[i].0@ && ids[i].1@
            .map_values(|s: String| s@) == str_values(crate::json::elems_of(fs[i].1))
}

/// Decodes the `identifiers` table: each key is a wire token, each value an
/// array of identifier strings.
#[verifier::loop_isolation(false)]
pub fn decode_identifiers(j: &Json) -> (r: Result<
    Vec<(BookIdentifierKey, Vec<String>)>,
    DecodeError,
>)
    ensures
        match r {
            Ok(out) => identifiers_ok(*j) && identifiers_matches(out@, *j),
            Err(_) => !identifiers_ok(*j),
        },
{
    let fields = match j.get("identifiers") {
        None => {
            let out: Vec<(BookIdentifierKey, Vec<String>)> = Vec::new();
            return Ok(out);
        },
        Some(Json::Obj(fs)) => fs,
        Some(_) => {
            return Err(
                DecodeError::Json(JsonDecodeError { field: String::from_str("identifiers") }),
            );
        },
    };
    let mut out: Vec<(BookIdentifierKey, Vec<String>)> = Vec::new();
    let mut i: usize = 0;
    while i < fields.len()
        invariant
            i <= fields.len(),
            out@.len() == i,
            forall|k: int|
                0 <= k < i ==> known_wire_token((#[trigger] fields@[k]).0@) && (fields@[k].1
                    matches Json::Arr(v) && all_strings(v@)),
            forall|k: int|
                0 <= k < i ==> wire_token_of((#[trigger] out@[k]).0) == fields@[k].0@ && out@[k].1@
                    .map_values(|s: String| s@) == str_values(crate::json::elems_of(fields@[k].1)),
        decreases fields.len() - i,
    {
        let pair = &fields[i];
        let key = match BookIdentifierKey::parse_key(pair.0.as_str()) {
            Ok(k) => k,
            Err(e) => {
                proof {
                    assert(!known_wire_token(fields@[i as int].0@));
                }
                return Err(DecodeError::Parse(e));
            },
        };
        let values = match crate::json::str_array_node(&pair.1, "identifiers") {
            Ok(v) => v,
            Err(e) => {
                return Err(DecodeError::Json(e));
            },
        };
        out.push((key, values));
        i += 1;
    }
    Ok(out)
}

/// Shape of the `classifications` field: an object whose two known code
/// lists are string arrays, everything defaulting to empty.
pub open spec fn classifications_ok(j: Json) -> bool {
    match field_of(j, "classifications"@) {
        None => true,
        Some(c) => {
            &&& c is Obj
            &&& match field_of(c, "dewey_decimal_class"@) {
                None => true,
                Some(Json::Arr(v)) => all_strings(v@),
                Some(_) => false,
            }
            &&& match field_of(c, "lc_classifications"@) {
                None => true,
                Some(Json::Arr(v)) => all_strings(v@),
                Some(_) => false,
            }
        },
    }
}

/// How decoded classifications relate to their field.
pub open spec fn classifications_matches(c: Classifications, j: Json) -> bool {
    match field_of(j, "classifications"@) {
        None => c.dewey_decimal@.len() == 0 && c.library_of_congress@.len() == 0,
        Some(cj) => {
            &&& (field_of(cj, "dewey_decimal_class"@) is None && c.dewey_decimal@.len() == 0)
                || crate::json::str_array_of(cj, "dewey_decimal_class"@) == Some(
                c.dewey_decimal@.map_values(|s: String| s@),
            )
            &&& (field_of(cj, "lc_classifications"@) is None && c.library_of_congress@.len() == 0)
                || crate::json::str_array_of(cj, "lc_classifications"@) == Some(
                c.library_of_congress@.map_values(|s: String| s@),
            )
        },
    }
}

/// Decodes the `classifications` field.
pub fn decode_classifications(j: &Json) -> (r: Result<Classifications, DecodeError>)
    ensures
        match r {
            Ok(c) => classifications_ok(*j) && classifications_matches(c, *j),
            Err(_) => !classifications_ok(*j),
        },
{
    let cj = match j.get("classifications") {
        None => {
            return Ok(Classifications::default());
        },
        Some(c) => c,
    };
    match cj {
        Json::Obj(_) => {},
        _ => {
            return Err(
                DecodeError::Json(JsonDecodeError { field: String::from_str("classifications") }),
            );
        },
    }
    let dewey_decimal = match str_array_or_empty(cj, "dewey_decimal_class") {
        Ok(v) => v,
        Err(e) => {
            return Err(DecodeError::Json(e));
        },
    };
    let library_of_congress = match str_array_or_empty(cj, "lc_classifications") {
        Ok(v) => v,
        Err(e) => {
            return Err(DecodeError::Json(e));
        },
    };
    Ok(Classifications { dewey_decimal, library_of_congress })
}

/// Shape of the `authors` field: an array of author references, defaulting
/// to empty.
pub open spec fn authors_field_ok(j: Json) -> bool {
    match field_of(j, "authors"@) {
        None => true,
        Some(Json::Arr(v)) => forall|i: int| 0 <= i < v@.len() ==> book_author_ok(#[trigger] v@[i]),
        Some(_) => false,
    }
}

/// How a decoded author list relates to its field.
pub open spec fn authors_field_matches(out: Seq<Author>, j: Json) -> bool {
    &&& out.len() == arr_field(j, "authors"@).len()
    &&& forall|i: int|
        0 <= i < out.len() ==> book_author_matches(#[trigger] out[i], arr_field(j, "authors"@)[i])
}

/// Decodes the `authors` field.
#[verifier::loop_isolation(false)]
pub fn decode_book_authors(j: &Json) -> (r: Result<Vec<Author>, DecodeError>)
    ensures
        match r {
            Ok(out) => authors_field_ok(*j) && authors_field_matches(out@, *j),
            Err(_) => !authors_field_ok(*j),
        },
{
    let arr = match j.get("authors") {
        None => {
            let out: Vec<Author> = Vec::new();
            return Ok(out);
        },
        Some(Json::Arr(v)) => v,
        Some(_) => {
            return Err(DecodeError::Json(JsonDecodeError { field: String::from_str("authors") }));
        },
    };
    let mut out: Vec<Author> = Vec::new();
    let mut i: usize = 0;
    while i < arr.len()
        invariant
            i <= arr.len(),
            out@.len() == i,
            forall|k: int| 0 <= k < i ==> book_author_ok(#[trigger] arr@[k]),
            forall|k: int| 0 <= k < i ==> book_author_matches(#[trigger] out@[k], arr@[k]),
        decreases arr.len() - i,
    {
        match decode_book_author(&arr[i]) {
            Ok(a) => {
                out.push(a);
            },
            Err(e) => {
                proof {
                    assert(!book_author_ok(arr@[i as int]));
                }
                return Err(e);
            },
        }
        i += 1;
    }
    Ok(out)
}

/// Shape of the `url` field: absent, or one URL string or an array of URL
/// strings, every string a valid URL.
pub open spec fn url_field_ok(j: Json) -> bool {
    match field_of(j, "url"@) {
        None => true,
        Some(v) => match scalar_or_list_of(v) {
            Some(raw) => forall|i: int|
                0 <= i < raw.len() ==> crate::urls::normalized_url(#[trigger] raw[i]) is Some,
            None => false,
        },
    }
}

/// How the decoded URL list relates to its field: each entry is the
/// normalized form of the corresponding wire string.
pub open spec fn url_field_matches(urls: Seq<String>, j: Json) -> bool {
    match field_of(j, "url"@) {
        None => urls.len() == 0,
        Some(v) => match scalar_or_list_of(v) {
            Some(raw) => urls.len() == raw.len() && forall|i: int|
                0 <= i < raw.len() ==> crate::urls::normalized_url(#[trigger] raw[i]) == Some(
                    urls[i]@,
                ),
            None => false,
        },
    }
}

/// Decodes the `url` field, normalizing each URL.
#[verifier::loop_isolation(false)]
pub fn decode_book_urls(j: &Json) -> (r: Result<Vec<String>, DecodeError>)
    ensures
        match r {
            Ok(out) => url_field_ok(*j) && url_field_matches(out@, *j),
            Err(_) => !url_field_ok(*j),
        },
{
    let node = match j.get("url") {
        None => {
            let out: Vec<String> = Vec::new();
            return Ok(out);
        },
        Some(v) => v,
    };
    let raw = match scalar_or_list("url", node) {
        Ok(v) => v,
        Err(e) => {
            return Err(DecodeError::Parse(e));
        },
    };
    let mut out: Vec<String> = Vec::new();
    let mut i: usize = 0;
    while i < raw.len()
        invariant
            i <= raw.len(),
            out@.len() == i,
            scalar_or_list_of(*node) == Some(raw@.map_values(|s: String| s@)),
            forall|k: int|
                0 <= k < i ==> crate::urls::normalized_url(raw@.map_values(|s: String| s@)[k])
                    == Some((#[trigger] out@[k])@),
        decreases raw.len() - i,
    {
        match crate::urls::normalize_url(raw[i].as_str()) {
            Some(u) => {
                out.push(u);
            },
            None => {
                proof {
                    assert(crate::urls::normalized_url(
                        raw@.map_values(|s: String| s@)[i as int],
                    ) is None);
                }
                return Err(DecodeError::Json(JsonDecodeError { field: String::from_str("url") }));
            },
        }
        i += 1;
    }
    proof {
        let raw_view = raw@.map_values(|s: String| s@);
        assert forall|k: int| 0 <= k < raw_view.len() implies crate::urls::normalized_url(
            #[trigger] raw_view[k],
        ) is Some by {
            assert(crate::urls::normalized_url(raw_view[k]) == Some(out@[k]@));
        }
    }
    Ok(out)
}

/// A book edition record.
#[derive(Clone, Debug, PartialEq, Eq)]
pub struct Book {
    pub url: Vec<String>,
    pub key: OpenLibraryResource,
    pub title: String,
    pub subtitle: Option<String>,
    pub pagination: Option<String>,
    pub by_statement: Option<String>,
    pub notes: Option<String>,
    pub authors: Vec<Author>,
    pub identifiers: Vec<(BookIdentifierKey, Vec<String>)>,
    pub classifications: Classifications,
    pub subjects: Vec<String>,
    pub subject_places: Vec<Entity>,
    pub subject_people: Vec<Entity>,
    pub subject_times: Vec<Entity>,
    pub publishers: Vec<String>,
    pub publish_places: Vec<String>,
    pub publish_date: String,
    pub excerpts: Vec<Excerpt>,
    pub links: Vec<crate::models::Link>,
    pub cover_images: Vec<u32>,
    pub ebooks: Vec<ElectronicBook>,
    pub number_of_pages: Option<u32>,
    pub weight: Option<String>,
}

impl OpenLibraryModel for Book {

}

/// Shape of a normalized polymorphic field that defaults to empty:
/// absent, or an array of strings, or an array of entity objects.
pub open spec fn soe_field_ok(j: Json, key: Seq<char>) -> bool {
    match field_of(j, key) {
        None => true,
        Some(v) => strings_or_entities_of(v) is Some,
    }
}

/// The canonical value of a normalized polymorphic field.
pub open spec fn soe_field_matches(out: Seq<String>, j: Json, key: Seq<char>) -> bool {
    match field_of(j, key) {
        None => out.len() == 0,
        Some(v) => strings_or_entities_of(v) == Some(out.map_values(|s: String| s@)),
    }
}

/// Normalizes one polymorphic field of a record, an absent field giving
/// the empty list.
pub fn decode_soe_field(j: &Json, key: &str) -> (r: Result<Vec<String>, DecodeError>)
    ensures
        match r {
            Ok(out) => soe_field_ok(*j, key@) && soe_field_matches(out@, *j, key@),
            Err(_) => !soe_field_ok(*j, key@),
        },
{
    match j.get(key) {
        None => {
            let out: Vec<String> = Vec::new();
            Ok(out)
        },
        Some(v) => match strings_or_entities(key, v) {
            Ok(out) => Ok(out),
            Err(e) => Err(DecodeError::Parse(e)),
        },
    }
}

/// Shape of a full book record.
pub open spec fn book_ok(j: Json) -> bool {
    &&& url_field_ok(j)
    &&& crate::models::resource_field_ok(j, "key"@)
    &&& req_str_ok(j, "title"@)
    &&& opt_str_ok(j, "subtitle"@)
    &&& opt_str_ok(j, "pagination"@)
    &&& opt_str_ok(j, "by_statement"@)
    &&& opt_str_ok(j, "notes"@)
    &&& authors_field_ok(j)
    &&& identifiers_ok(j)
    &&& classifications_ok(j)
    &&& soe_field_ok(j, "subjects"@)
    &&& entity_array_ok(j, "subject_places"@)
    &&& entity_array_ok(j, "subject_people"@)
    &&& entity_array_ok(j, "subject_times"@)
    &&& soe_field_ok(j, "publishers"@)
    &&& soe_field_ok(j, "publish_places"@)
    &&& req_str_ok(j, "publish_date"@)
    &&& match field_of(j, "excerpts"@) {
        None => true,
        Some(Json::Arr(v)) => forall|i: int| 0 <= i < v@.len() ==> excerpt_ok(#[trigger] v@[i]),
        Some(_) => false,
    }
    &&& match field_of(j, "links"@) {
        None => true,
        Some(Json::Arr(v)) => forall|i: int| 0 <= i < v@.len() ==> link_ok(#[trigger] v@[i]),
        Some(_) => false,
    }
    &&& int_array_ok(j, "covers"@, 0, u32::MAX as int)
    &&& match field_of(j, "ebooks"@) {
        None => true,
        Some(Json::Arr(v)) => forall|i: int| 0 <= i < v@.len() ==> ebook_ok(#[trigger] v@[i]),
        Some(_) => false,
    }
    &&& opt_int_ok(j, "number_of_pages"@, 0, u32::MAX as int)
    &&& opt_str_ok(j, "weight"@)
}

/// How a decoded book relates to its record, field by field.
pub open spec fn book_matches(b: Book, j: Json) -> bool {
    &&& url_field_matches(b.url@, j)
    &&& parsed_resource(b.key, path_segments_of(str_field_val(j, "key"@)))
    &&& b.title@ == str_field_val(j, "title"@)
    &&& match field_of(j, "subtitle"@) {
        Some(Json::Str(s)) => (b.subtitle matches Some(t) && t@ == s@),
        _ => b.subtitle is None,
    }
    &&& match field_of(j, "pagination"@) {
        Some(Json::Str(s)) => (b.pagination matches Some(t) && t@ == s@),
        _ => b.pagination is None,
    }
    &&& match field_of(j, "by_statement"@) {
        Some(Json::Str(s)) => (b.by_statement matches Some(t) && t@ == s@),
        _ => b.by_statement is None,
    }
    &&& match field_of(j, "notes"@) {
        Some(Json::Str(s)) => (b.notes matches Some(t) && t@ == s@),
        _ => b.notes is None,
    }
    &&& authors_field_matches(b.authors@, j)
    &&& identifiers_matches(b.identifiers@, j)
    &&& classifications_matches(b.classifications, j)
    &&& soe_field_matches(b.subjects@, j, "subjects"@)
    &&& entity_array_matches(b.subject_places@, j, "subject_places"@)
    &&& entity_array_matches(b.subject_people@, j, "subject_people"@)
    &&& entity_array_matches(b.subject_times@, j, "subject_times"@)
    &&& soe_field_matches(b.publishers@, j, "publishers"@)
    &&& soe_field_matches(b.publish_places@, j, "publish_places"@)
    &&& b.publish_date@ == str_field_val(j, "publish_date"@)
    &&& b.excerpts@.len() == arr_field(j, "excerpts"@).len()
    &&& forall|i: int|
        0 <= i < b.excerpts@.len() ==> excerpt_matches(
            #[trigger] b.excerpts@[i],
            arr_field(j, "excerpts"@)[i],
        )
    &&& b.links@.len() == arr_field(j, "links"@).len()
    &&& forall|i: int|
        0 <= i < b.links@.len() ==> link_matches(
            #[trigger] b.links@[i],
            arr_field(j, "links"@)[i],
        )
    &&& b.cover_images@.map_values(|n: u32| n as int) == int_values(arr_field(j, "covers"@))
    &&& b.ebooks@.len() == arr_field(j, "ebooks"@).len()
    &&& forall|i: int|
        0 <= i < b.ebooks@.len() ==> ebook_matches(
            #[trigger] b.ebooks@[i],
            arr_field(j, "ebooks"@)[i],
        )
    &&& match field_of(j, "number_of_pages"@) {
        Some(Json::Int(v)) => b.number_of_pages == Some(v as u32),
        _ => b.number_of_pages is None,
    }
    &&& match field_of(j, "weight"@) {
        Some(Json::Str(s)) => (b.weight matches Some(t) && t@ == s@),
        _ => b.weight is None,
    }
}

/// Decodes a book record: required fields must be present, defaulted
/// fields may be absent, and the polymorphic fields are normalized.
pub fn decode_book(j: &Json) -> (r: Result<Book, DecodeError>)
    ensures
        match r {
            Ok(b) => book_ok(*j) && book_matches(b, *j),
            Err(_) => !book_ok(*j),
        },
{
    let url = match decode_book_urls(j) {
        Ok(v) => v,
        Err(e) => {
            return Err(e);
        },
    };
    let key = match crate::models::resource_field(j, "key") {
        Ok(k) => k,
        Err(e) => {
            return Err(e);
        },
    };
    let title = match req_string(j, "title") {
        Ok(s) => s,
        Err(e) => {
            return Err(DecodeError::Json(e));
        },
    };
    let subtitle = match opt_string(j, "subtitle") {
        Ok(v) => v,
        Err(e) => {
            return Err(DecodeError::Json(e));
        },
    };
    let pagination = match opt_string(j, "pagination") {
        Ok(v) => v,
        Err(e) => {
            return Err(DecodeError::Json(e));
        },
    };
    let by_statement = match opt_string(j, "by_statement") {
        Ok(v) => v,
        Err(e) => {
            return Err(DecodeError::Json(e));
        },
    };
    let notes = match opt_string(j, "notes") {
        Ok(v) => v,
        Err(e) => {
            return Err(DecodeError::Json(e));
        },
    };
    let authors = match decode_book_authors(j) {
        Ok(v) => v,
        Err(e) => {
            return Err(e);
        },
    };
    let identifiers = match decode_identifiers(j) {
        Ok(v) => v,
        Err(e) => {
            return Err(e);
        },
    };
    let classifications = match decode_classifications(j) {
        Ok(v) => v,
        Err(e) => {
            return Err(e);
        },
    };
    let subjects = match decode_soe_field(j, "subjects") {
        Ok(v) => v,
        Err(e) => {
            return Err(e);
        },
    };
    let subject_places = match decode_entity_array(j, "subject_places") {
        Ok(v) => v,
        Err(e) => {
            return Err(e);
        },
    };
    let subject_people = match decode_entity_array(j, "subject_people") {
        Ok(v) => v,
        Err(e) => {
            return Err(e);
        },
    };
    let subject_times = match decode_entity_array(j, "subject_times") {
        Ok(v) => v,
        Err(e) => {
            return Err(e);
        },
    };
    let publishers = match decode_soe_field(j, "publishers") {
        Ok(v) => v,
        Err(e) => {
            return Err(e);
        },
    };
    let publish_places = match decode_soe_field(j, "publish_places") {
        Ok(v) => v,
        Err(e) => {
            return Err(e);
        },
    };
    let publish_date = match req_string(j, "publish_date") {
        Ok(s) => s,
        Err(e) => {
            return Err(DecodeError::Json(e));
        },
    };
    let excerpts = match decode_excerpts(j) {
        Ok(v) => v,
        Err(e) => {
            return Err(e);
        },
    };
    let links = match decode_links(j) {
        Ok(v) => v,
        Err(e) => {
            return Err(e);
        },
    };
    let cover_images = match u32_array_or_empty(j, "covers") {
        Ok(v) => v,
        Err(e) => {
            return Err(DecodeError::Json(e));
        },
    };
    let ebooks = match decode_ebooks(j) {
        Ok(v) => v,
        Err(e) => {
            return Err(e);
        },
    };
    let number_of_pages = match opt_int(j, "number_of_pages", 0, u32::MAX as i64) {
        Ok(Some(v)) => Some(v as u32),
        Ok(None) => None,
        Err(e) => {
            return Err(DecodeError::Json(e));
        },
    };
    let weight = match opt_string(j, "weight") {
        Ok(v) => v,
        Err(e) => {
            return Err(DecodeError::Json(e));
        },
    };
    Ok(
        Book {
            url,
            key,
            title,
            subtitle,
            pagination,
            by_statement,
            notes,
            authors,
            identifiers,
            classifications,
            subjects,
            subject_places,
            subject_people,
            subject_times,
            publishers,
            publish_places,
            publish_date,
            excerpts,
            links,
            cover_images,
            ebooks,
            number_of_pages,
            weight,
        },
    )
}

/// Resolves a book endpoint response: a non-success status is the exact
/// API error, a success body must decode as a book record.
pub fn resolve_book(status: u16, j: &Json) -> (r: Result<Book, OpenLibraryError>)
    ensures
        status != 200 ==> (r matches Err(OpenLibraryError::ApiError { status_code, error })
            && status_code == status && error is None),
        status == 200 ==> match r {
            Ok(b) => book_ok(*j) && book_matches(b, *j),
            Err(OpenLibraryError::JsonParseError { reason: _ }) => !book_ok(*j),
            Err(_) => false,
        },
{
    if status != 200 {
        return Err(OpenLibraryError::ApiError { status_code: status, error: None });
    }
    match decode_book(j) {
        Ok(b) => Ok(b),
        Err(_) => Err(
            OpenLibraryError::JsonParseError {
                reason: String::from_str("The payload did not match the book schema"),
            },
        ),
    }
}

/// Parses response text and resolves a book endpoint response: a
/// non-success status is the exact API error; on success, text that parses
/// to a book record yields exactly that book, and any other text is a
/// decoding failure.
pub fn resolve_book_text(status: u16, body: &str) -> (r: Result<Book, OpenLibraryError>)
    ensures
        status != 200 ==> (r matches Err(OpenLibraryError::ApiError { status_code, error })
            && status_code == status && error is None),
        status == 200 ==> match crate::json::parsed_json(body@) {
            Some(j) => match r {
                Ok(b) => book_ok(j) && book_matches(b, j),
                Err(OpenLibraryError::JsonParseError { reason: _ }) => !book_ok(j),
                Err(_) => false,
            },
            None => r matches Err(OpenLibraryError::JsonParseError { reason: _ }),
        },
{
    if status != 200 {
        return Err(OpenLibraryError::ApiError { status_code: status, error: None });
    }
    match json_from_str(body) {
        Ok(j) => resolve_book(status, &j),
        Err(reason) => Err(OpenLibraryError::JsonParseError { reason }),
    }
}

/// The `bibkeys` query value of a bulk search: the compact forms of the
/// keys, joined with commas.
pub open spec fn joined_compacts(keys: Seq<BibliographyKey>) -> Seq<char>
    decreases keys.len(),
{
    if keys.len() == 0 {
        Seq::empty()
    } else if keys.len() == 1 {
        compact_of(keys[0])
    } else {
        joined_compacts(keys.drop_last()) + seq![','] + compact_of(keys.last())
    }
}

/// Writes the `bibkeys` query value of a bulk search.
#[verifier::loop_isolation(false)]
pub fn bibliography_keys_query(keys: &Vec<BibliographyKey>) -> (r: String)
    ensures
        r@ == joined_compacts(keys@),
{
    let mut out = String::new();
    let mut i: usize = 0;
    while i < keys.len()
        invariant
            i <= keys.len(),
            out@ =~~= joined_compacts(keys@.subrange(0, i as int)),
        decreases keys.len() - i,
    {
        if i > 0 {
            out.append(",");
        }
        let compact = keys[i].to_compact();
        out.append(compact.as_str());
        proof {
            reveal_strlit(",");
            assert(keys@.subrange(0, i as int + 1).drop_last() =~= keys@.subrange(0, i as int));
            assert(keys@.subrange(0, i as int + 1).last() == keys@[i as int]);
            assert(out@ =~~= joined_compacts(keys@.subrange(0, i as int + 1)));
        }
        i += 1;
    }
    proof {
        assert(keys@.subrange(0, keys@.len() as int) =~= keys@);
    }
    out
}

/// Whether a string is a well-formed compact identifier.
pub open spec fn compact_parses(s: Seq<char>) -> bool {
    let chunks = split_char(s, ':');
    &&& chunks.len() == 2
    &&& chunks[0].len() > 0
    &&& chunks[1].len() > 0
    &&& supported_acronym(chunks[0])
}

/// Shape of a bulk-search response: an object from compact identifiers to
/// book records.
pub open spec fn book_search_ok(j: Json) -> bool {
    match j {
        Json::Obj(fs) => forall|i: int|
            0 <= i < fs@.len() ==> compact_parses((#[trigger] fs@[i]).0@) && book_ok(fs@[i].1),
        _ => false,
    }
}

/// How a decoded bulk-search table relates to its document: the keys parse
/// from the field names, the books from the field values, in order.
pub open spec fn book_search_matches(out: Seq<(BibliographyKey, Book)>, j: Json) -> bool {
    match j {
        Json::Obj(fs) => {
            &&& out.len() == fs@.len()
            &&& forall|i: int|
                0 <= i < out.len() ==> key_acronym((#[trigger] out[i]).0) == split_char(
                    fs@[i].0@,
                    ':',
                )[0] && key_value(out[i].0) == split_char(fs@[i].0@, ':')[1] && book_matches(
                    out[i].1,
                    fs@[i].1,
                )
        },
        _ => false,
    }
}

/// Decodes a bulk-search response document.
#[verifier::loop_isolation(false)]
pub fn decode_book_search(j: &Json) -> (r: Result<Vec<(BibliographyKey, Book)>, DecodeError>)
    ensures
        match r {
            Ok(out) => book_search_ok(*j) && book_search_matches(out@, *j),
            Err(_) => !book_search_ok(*j),
        },
{
    let fields = match j {
        Json::Obj(fs) => fs,
        _ => {
            return Err(DecodeError::Json(JsonDecodeError { field: String::from_str("bibkeys") }));
        },
    };
    let mut out: Vec<(BibliographyKey, Book)> = Vec::new();
    let mut i: usize = 0;
    while i < fields.len()
        invariant
            i <= fields.len(),
            out@.len() == i,
            forall|k: int|
                0 <= k < i ==> compact_parses((#[trigger] fields@[k]).0@) && book_ok(
                    fields@[k].1,
                ),
            forall|k: int|
                0 <= k < i ==> key_acronym((#[trigger] out@[k]).0) == split_char(
                    fields@[k].0@,
                    ':',
                )[0] && key_value(out@[k].0) == split_char(fields@[k].0@, ':')[1] && book_matches(
                    out@[k].1,
                    fields@[k].1,
                ),
        decreases fields.len() - i,
    {
        let pair = &fields[i];
        let key = match BibliographyKey::parse_compact(pair.0.as_str()) {
            Ok(k) => k,
            Err(e) => {
                proof {
                    assert(!compact_parses(fields@[i as int].0@));
                }
                return Err(DecodeError::Parse(e));
            },
        };
        let book = match decode_book(&pair.1) {
            Ok(b) => b,
            Err(e) => {
                proof {
                    assert(!book_ok(fields@[i as int].1));
                }
                return Err(e);
            },
        };
        out.push((key, book));
        i += 1;
    }
    Ok(out)
}

/// Parses response text and resolves a bulk-search response: a non-success
/// status is the exact API error; on success, text that parses to a table
/// of compact identifiers and book records yields exactly that table, and
/// any other text is a decoding failure.
pub fn resolve_book_search_text(status: u16, body: &str) -> (r: Result<
    Vec<(BibliographyKey, Book)>,
    OpenLibraryError,
>)
    ensures
        status != 200 ==> (r matches Err(OpenLibraryError::ApiError { status_code, error })
            && status_code == status && error is None),
        status == 200 ==> match crate::json::parsed_json(body@) {
            Some(j) => match r {
                Ok(out) => book_search_ok(j) && book_search_matches(out@, j),
                Err(OpenLibraryError::JsonParseError { reason: _ }) => !book_search_ok(j),
                Err(_) => false,
            },
            None => r matches Err(OpenLibraryError::JsonParseError { reason: _ }),
        },
{
    if status != 200 {
        return Err(OpenLibraryError::ApiError { status_code: status, error: None });
    }
    match json_from_str(body) {
        Ok(j) => match decode_book_search(&j) {
            Ok(out) => Ok(out),
            Err(_) => Err(
                OpenLibraryError::JsonParseError {
                    reason: String::from_str(
                        "The payload did not match the book search schema",
                    ),
                },
            ),
        },
        Err(reason) => Err(OpenLibraryError::JsonParseError { reason }),
    }
}
} // verus!
