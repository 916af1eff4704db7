//! Authors: search documents, detail records, references on works, and the
//! works-listing request built from a URL.

use vstd::prelude::*;

use crate::format::KeyedValue;
use crate::json::{
    arr_field, field_of, int_in_range, json_from_str, obj_fields, opt_string, req_bool, req_int,
    req_string, req_str_map, str_array_of, str_array_or_empty, str_field_val, str_map_ok, str_of,
    Json,
};
use crate::models::identifiers::{Identifier, OpenLibraryIdentifer};
use crate::models::works::{decode_work, work_matches, work_ok, Work};
use crate::models::{
    parsed_resource, path_segments_of, resource_str_ok, Link, LinkName, OpenLibraryModel,
    OpenLibraryResource,
};
use crate::text::{all_digits, dec_str, dec_value, parse_u32, str_eq, u32_dec_string};
use crate::{DecodeError, JsonDecodeError, OpenLibraryError};

verus! {

/// The role an author reference bears; the API knows one.
#[derive(Clone, Copy, Debug, PartialEq, Eq)]
pub enum AuthorType {
    AuthorRole,
}

/// The path form of an author type: `/type/author_role`.
pub open spec fn author_type_path(t: AuthorType) -> Seq<char> {
    "/type/author_role"@
}

/// Whether a string is the path form of an author type: its first two
/// non-empty segments are `type` and `author_role`.
pub open spec fn author_type_parses(s: Seq<char>) -> bool {
    let segs = path_segments_of(s);
    &&& segs.len() >= 2
    &&& segs[0] == "type"@
    &&& segs[1] == "author_role"@
}

impl AuthorType {
    /// Parses the bare role name.
    pub fn from_str(value: &str) -> (r: Result<AuthorType, OpenLibraryError>)
        ensures
            match r {
                Ok(t) => value@ == "author_role"@,
                Err(OpenLibraryError::ParsingError { reason: _ }) => value@ != "author_role"@,
                Err(_) => false,
            },
    {
        if str_eq(value, "author_role") {
            Ok(AuthorType::AuthorRole)
        } else {
            let mut reason = String::from_str("Unable to parse string (");
            reason.append(value);
            reason.append(") into an Author Type");
            Err(OpenLibraryError::ParsingError { reason })
        }
    }

    /// Parses the `/type/author_role` path form: segments after the second
    /// are ignored, as for resource paths.
    pub fn parse_path(s: &str) -> (r: Result<AuthorType, OpenLibraryError>)
        ensures
            match r {
                Ok(t) => author_type_parses(s@),
                Err(OpenLibraryError::ParsingError { reason: _ }) => !author_type_parses(s@),
                Err(_) => false,
            },
    {
        let pieces = crate::text::split_string(s, '/');
        let ghost all = pieces@.map_values(|p: String| p@);
        let mut segs: Vec<String> = Vec::new();
        let mut i: usize = 0;
        proof {
            reveal(Seq::filter);
            assert(all.subrange(0, 0).filter(|p: Seq<char>| p.len() > 0) =~= Seq::<
                Seq<char>,
            >::empty());
            assert(segs@.map_values(|p: String| p@) =~= Seq::<Seq<char>>::empty());
        }
        while i < pieces.len()
            invariant
                i <= pieces.len(),
                all == pieces@.map_values(|p: String| p@),
                segs@.map_values(|p: String| p@) =~~= all.subrange(0, i as int).filter(
                    |p: Seq<char>| p.len() > 0,
                ),
            decreases pieces.len() - i,
        {
            let ghost prev = segs@.map_values(|p: String| p@);
            proof {
                reveal(Seq::filter);
                assert(all.subrange(0, i + 1).drop_last() =~= all.subrange(0, i as int));
                assert(all.subrange(0, i + 1).last() == all[i as int]);
            }
            if !pieces[i].as_str().is_empty() {
                let piece = pieces[i].clone();
                segs.push(piece);
                proof {
                    assert(segs@.map_values(|p: String| p@) =~~= prev.push(all[i as int]));
                }
            }
            i += 1;
        }
        proof {
            assert(all.subrange(0, pieces@.len() as int) =~= all);
        }
        if segs.len() < 2 {
            let mut reason = String::from_str("Invalid format for Author Type: ");
            reason.append(s);
            return Err(OpenLibraryError::ParsingError { reason });
        }
        if !str_eq(segs[0].as_str(), "type") {
            let mut reason = String::from_str("Invalid format for Author Type: ");
            reason.append(s);
            return Err(OpenLibraryError::ParsingError { reason });
        }
        AuthorType::from_str(segs[1].as_str())
    }

    /// Serializes back to the `/type/author_role` path form.
    pub fn to_path(&self) -> (r: String)
        ensures
            r@ == author_type_path(*self),
    {
        String::from_str("/type/author_role")
    }
}

/// A reference from a work to one of its authors, both halves wrapped
/// under a `key` on the wire.
#[derive(Debug)]
pub struct AuthorReference {
    pub author_type: KeyedValue<AuthorType>,
    pub identifier: KeyedValue<OpenLibraryResource>,
}

/// The `type` field of an author reference: either the bare path string or
/// an object wrapping it under `key`.
pub open spec fn author_type_field_ok(v: Json) -> bool {
    match v {
        Json::Str(s) => author_type_parses(s@),
        Json::Obj(_) => match field_of(v, "key"@) {
            Some(Json::Str(s)) => author_type_parses(s@),
            _ => false,
        },
        _ => false,
    }
}

/// Shape of an author reference record.
pub open spec fn author_reference_ok(j: Json) -> bool {
    &&& match field_of(j, "type"@) {
        Some(v) => author_type_field_ok(v),
        None => false,
    }
    &&& match field_of(j, "author"@) {
        Some(a) => match field_of(a, "key"@) {
            Some(v) => resource_str_ok(v),
            None => false,
        },
        None => false,
    }
}

/// How a decoded author reference relates to its record.
pub open spec fn author_reference_matches(r: AuthorReference, j: Json) -> bool {
    match field_of(j, "author"@) {
        Some(a) => parsed_resource(
            r.identifier.key,
            path_segments_of(str_field_val(a, "key"@)),
        ),
        None => false,
    }
}

/// Decodes the `type` field of an author reference, accepting both wire
/// shapes: the bare string first, the keyed object second.
pub fn decode_author_type_field(v: &Json) -> (r: Result<AuthorType, DecodeError>)
    ensures
        match r {
            Ok(t) => author_type_field_ok(*v),
            Err(_) => !author_type_field_ok(*v),
        },
{
    match v {
        Json::Str(s) => match AuthorType::parse_path(s.as_str()) {
            Ok(t) => Ok(t),
            Err(_) => Err(DecodeError::Json(JsonDecodeError { field: String::from_str("type") })),
        },
        Json::Obj(_) => match v.get("key") {
            Some(Json::Str(s)) => match AuthorType::parse_path(s.as_str()) {
                Ok(t) => Ok(t),
                Err(_) => Err(
                    DecodeError::Json(JsonDecodeError { field: String::from_str("type") }),
                ),
            },
            _ => Err(DecodeError::Json(JsonDecodeError { field: String::from_str("type") })),
        },
        _ => Err(DecodeError::Json(JsonDecodeError { field: String::from_str("type") })),
    }
}

/// Decodes one author reference.
pub fn decode_author_reference(j: &Json) -> (r: Result<AuthorReference, DecodeError>)
    ensures
        match r {
            Ok(a) => author_reference_ok(*j) && author_reference_matches(a, *j),
            Err(_) => !author_reference_ok(*j),
        },
{
    let author_type = match j.get("type") {
        Some(v) => match decode_author_type_field(v) {
            Ok(t) => t,
            Err(e) => {
                return Err(e);
            },
        },
        None => {
            return Err(DecodeError::Json(JsonDecodeError { field: String::from_str("type") }));
        },
    };
    let identifier = match j.get("author") {
        Some(a) => match crate::models::resource_field(a, "key") {
            Ok(res) => res,
            Err(e) => {
                return Err(e);
            },
        },
        None => {
            return Err(DecodeError::Json(JsonDecodeError { field: String::from_str("author") }));
        },
    };
    Ok(
        AuthorReference {
            author_type: KeyedValue { key: author_type },
            identifier: KeyedValue { key: identifier },
        },
    )
}

/// An author document of the author-search endpoint.
#[derive(Debug)]
pub struct Author {
    pub key: String,
    pub text: Vec<String>,
    /// The wire field `type`.
    pub author_type: String,
    pub name: String,
    pub alternate_names: Vec<String>,
    pub birth_date: Option<String>,
    pub top_work: String,
    pub work_count: i32,
    pub top_subjects: Vec<String>,
    pub _version_: u64,
}

/// Shape of an author search document.
pub open spec fn author_doc_ok(j: Json) -> bool {
    &&& crate::json::req_str_ok(j, "key"@)
    &&& match field_of(j, "text"@) {
        None => true,
        Some(Json::Arr(v)) => crate::json::all_strings(v@),
        Some(_) => false,
    }
    &&& crate::json::req_str_ok(j, "type"@)
    &&& crate::json::req_str_ok(j, "name"@)
    &&& match field_of(j, "alternate_names"@) {
        None => true,
        Some(Json::Arr(v)) => crate::json::all_strings(v@),
        Some(_) => false,
    }
    &&& crate::json::opt_str_ok(j, "birth_date"@)
    &&& crate::json::req_str_ok(j, "top_work"@)
    &&& int_in_range(j, "work_count"@, i32::MIN as int, i32::MAX as int) is Some
    &&& crate::json::req_str_array_ok(j, "top_subjects"@)
    &&& int_in_range(j, "_version_"@, 0, i64::MAX as int) is Some
}

/// How a decoded author document relates to its record.
pub open spec fn author_doc_matches(a: Author, j: Json) -> bool {
    &&& a.key@ == str_field_val(j, "key"@)
    &&& (field_of(j, "text"@) is None && a.text@.len() == 0) || str_array_of(j, "text"@) == Some(
        a.text@.map_values(|s: String| s@),
    )
    &&& a.author_type@ == str_field_val(j, "type"@)
    &&& a.name@ == str_field_val(j, "name"@)
    &&& (field_of(j, "alternate_names"@) is None && a.alternate_names@.len() == 0) || str_array_of(
        j,
        "alternate_names"@,
    ) == Some(a.alternate_names@.map_values(|s: String| s@))
    &&& match field_of(j, "birth_date"@) {
        Some(Json::Str(s)) => (a.birth_date matches Some(t) && t@ == s@),
        _ => a.birth_date is None,
    }
    &&& a.top_work@ == str_field_val(j, "top_work"@)
    &&& int_in_range(j, "work_count"@, i32::MIN as int, i32::MAX as int) == Some(
        a.work_count as int,
    )
    &&& str_array_of(j, "top_subjects"@) == Some(a.top_subjects@.map_values(|s: String| s@))
    &&& int_in_range(j, "_version_"@, 0, i64::MAX as int) == Some(a._version_ as int)
}

/// Decodes one author search document.
pub fn decode_author_doc(j: &Json) -> (r: Result<Author, DecodeError>)
    ensures
        match r {
            Ok(a) => author_doc_ok(*j) && author_doc_matches(a, *j),
            Err(_) => !author_doc_ok(*j),
        },
{
    let key = match req_string(j, "key") {
        Ok(s) => s,
        Err(e) => {
            return Err(DecodeError::Json(e));
        },
    };
    let text = match str_array_or_empty(j, "text") {
        Ok(v) => v,
        Err(e) => {
            return Err(DecodeError::Json(e));
        },
    };
    let author_type = match req_string(j, "type") {
        Ok(s) => s,
        Err(e) => {
            return Err(DecodeError::Json(e));
        },
    };
    let name = match req_string(j, "name") {
        Ok(s) => s,
        Err(e) => {
            return Err(DecodeError::Json(e));
        },
    };
    let alternate_names = match str_array_or_empty(j, "alternate_names") {
        Ok(v) => v,
        Err(e) => {
            return Err(DecodeError::Json(e));
        },
    };
    let birth_date = match opt_string(j, "birth_date") {
        Ok(v) => v,
        Err(e) => {
            return Err(DecodeError::Json(e));
        },
    };
    let top_work = match req_string(j, "top_work") {
        Ok(s) => s,
        Err(e) => {
            return Err(DecodeError::Json(e));
        },
    };
    let work_count = match req_int(j, "work_count", i32::MIN as i64, i32::MAX as i64) {
        Ok(v) => v as i32,
        Err(e) => {
            return Err(DecodeError::Json(e));
        },
    };
    let top_subjects = match crate::json::req_str_array(j, "top_subjects") {
        Ok(v) => v,
        Err(e) => {
            return Err(DecodeError::Json(e));
        },
    };
    let version = match req_int(j, "_version_", 0, i64::MAX) {
        Ok(v) => v as u64,
        Err(e) => {
            return Err(DecodeError::Json(e));
        },
    };
    Ok(
        Author {
            key,
            text,
            author_type,
            name,
            alternate_names,
            birth_date,
            top_work,
            work_count,
            top_subjects,
            _version_: version,
        },
    )
}

/// The response of the author-search endpoint.
#[derive(Debug)]
pub struct AuthorResponse {
    pub num_found: i32,
    pub start: i32,
    pub num_found_exact: bool,
    pub docs: Vec<Author>,
}

impl OpenLibraryModel for AuthorResponse {

}

/// Shape of an author-search response.
pub open spec fn author_response_ok(j: Json) -> bool {
    &&& int_in_range(j, "numFound"@, i32::MIN as int, i32::MAX as int) is Some
    &&& int_in_range(j, "start"@, i32::MIN as int, i32::MAX as int) is Some
    &&& field_of(j, "numFoundExact"@) matches Some(v) && v is Bool
    &&& match field_of(j, "docs"@) {
        Some(Json::Arr(v)) => forall|i: int| 0 <= i < v@.len() ==> author_doc_ok(#[trigger] v@[i]),
        _ => false,
    }
}

/// How a decoded author-search response relates to its document.
pub open spec fn author_response_matches(resp: AuthorResponse, j: Json) -> bool {
    &&& int_in_range(j, "numFound"@, i32::MIN as int, i32::MAX as int) == Some(
        resp.num_found as int,
    )
    &&& int_in_range(j, "start"@, i32::MIN as int, i32::MAX as int) == Some(resp.start as int)
    &&& field_of(j, "numFoundExact"@) == Some(Json::Bool(resp.num_found_exact))
    &&& resp.docs@.len() == arr_field(j, "docs"@).len()
    &&& forall|i: int|
        0 <= i < resp.docs@.len() ==> author_doc_matches(
            #[trigger] resp.docs@[i],
            arr_field(j, "docs"@)[i],
        )
}

/// Decodes an author-search response.
#[verifier::loop_isolation(false)]
pub fn decode_author_response(j: &Json) -> (r: Result<AuthorResponse, DecodeError>)
    ensures
        match r {
            Ok(resp) => author_response_ok(*j) && author_response_matches(resp, *j),
            Err(_) => !author_response_ok(*j),
        },
{
    let num_found = match req_int(j, "numFound", i32::MIN as i64, i32::MAX as i64) {
        Ok(v) => v as i32,
        Err(e) => {
            return Err(DecodeError::Json(e));
        },
    };
    let start = match req_int(j, "start", i32::MIN as i64, i32::MAX as i64) {
        Ok(v) => v as i32,
        Err(e) => {
            return Err(DecodeError::Json(e));
        },
    };
    let num_found_exact = match req_bool(j, "numFoundExact") {
        Ok(b) => b,
        Err(e) => {
            return Err(DecodeError::Json(e));
        },
    };
    let arr = match j.get("docs") {
        Some(Json::Arr(v)) => v,
        _ => {
            return Err(DecodeError::Json(JsonDecodeError { field: String::from_str("docs") }));
        },
    };
    let mut docs: Vec<Author> = Vec::new();
    let mut i: usize = 0;
    while i < arr.len()
        invariant
            i <= arr.len(),
            docs@.len() == i,
            forall|k: int| 0 <= k < i ==> author_doc_ok(#[trigger] arr@[k]),
            forall|k: int| 0 <= k < i ==> author_doc_matches(#[trigger] docs@[k], arr@[k]),
        decreases arr.len() - i,
    {
        match decode_author_doc(&arr[i]) {
            Ok(a) => {
                docs.push(a);
            },
            Err(e) => {
                proof {
                    assert(!author_doc_ok(arr@[i as int]));
                }
                return Err(e);
            },
        }
        i += 1;
    }
    Ok(AuthorResponse { num_found, start, num_found_exact, docs })
}

/// Parses response text and resolves an author-search response: a
/// non-success status is the exact API error; on success, text that parses
/// to a search response yields exactly that response, and any other text is
/// a decoding failure.
pub fn resolve_author_search_text(status: u16, body: &str) -> (r: Result<
    AuthorResponse,
    OpenLibraryError,
>)
    ensures
        status != 200 ==> (r matches Err(OpenLibraryError::ApiError { status_code, error })
            && status_code == status && error is None),
        status == 200 ==> match crate::json::parsed_json(body@) {
            Some(j) => match r {
                Ok(resp) => author_response_ok(j) && author_response_matches(resp, j),
                Err(OpenLibraryError::JsonParseError { reason: _ }) => !author_response_ok(j),
                Err(_) => false,
            },
            None => r matches Err(OpenLibraryError::JsonParseError { reason: _ }),
        },
{
    if status != 200 {
        return Err(OpenLibraryError::ApiError { status_code: status, error: None });
    }
    match json_from_str(body) {
        Ok(j) => match decode_author_response(&j) {
            Ok(resp) => Ok(resp),
            Err(_) => Err(
                OpenLibraryError::JsonParseError {
                    reason: String::from_str(
                        "The payload did not match the author search schema",
                    ),
                },
            ),
        },
        Err(reason) => Err(OpenLibraryError::JsonParseError { reason }),
    }
}

/// A works-listing request: the author, with optional paging.
#[derive(Clone, Debug, PartialEq, Eq)]
pub struct AuthorWorksRequest {
    pub identifier: OpenLibraryIdentifer,
    pub limit: Option<u32>,
    pub offset: Option<u32>,
}

/// The segment after the first `authors` segment of a URL path, when both
/// exist: the author identifier the path names.
pub open spec fn authors_id_of(segs: Seq<Seq<char>>) -> Option<Seq<char>>
    decreases segs.len(),
{
    if segs.len() == 0 {
        None
    } else if segs[0] == "authors"@ {
        if segs.len() >= 2 {
            Some(segs[1])
        } else {
            None
        }
    } else {
        authors_id_of(segs.drop_first())
    }
}

proof fn authors_id_skip_step(segs: Seq<Seq<char>>, i: int)
    requires
        0 <= i < segs.len(),
        segs[i] != "authors"@,
        authors_id_of(segs) == authors_id_of(segs.skip(i)),
    ensures
        authors_id_of(segs) == authors_id_of(segs.skip(i + 1)),
{
    assert(segs.skip(i).drop_first() =~= segs.skip(i + 1));
    assert(segs.skip(i)[0] == segs[i]);
}

/// The value of the last query pair with the given key: a repeated
/// parameter is read as its last occurrence.
pub open spec fn last_value(q: Seq<(Seq<char>, Seq<char>)>, key: Seq<char>) -> Option<Seq<char>>
    decreases q.len(),
{
    if q.len() == 0 {
        None
    } else if q.last().0 == key {
        Some(q.last().1)
    } else {
        last_value(q.drop_last(), key)
    }
}

/// Whether a query value reads as an unsigned 32-bit decimal number.
pub open spec fn u32_text(v: Seq<char>) -> bool {
    v.len() > 0 && all_digits(v) && dec_value(v) <= u32::MAX as int
}

/// Reads an optional unsigned paging parameter, taking the last occurrence
/// of the key.
#[verifier::loop_isolation(false)]
pub fn query_u32(query: &Vec<(String, String)>, key: &str) -> (r: Result<
    Option<u32>,
    OpenLibraryError,
>)
    ensures
        ({
            let q = query@.map_values(|p: (String, String)| (p.0@, p.1@));
            match r {
                Ok(None) => last_value(q, key@) is None,
                Ok(Some(n)) => (last_value(q, key@) matches Some(v) && u32_text(v) && n
                    == dec_value(v)),
                Err(OpenLibraryError::ParsingError { reason: _ }) => (last_value(q, key@)
                    matches Some(v) && !u32_text(v)),
                Err(_) => false,
            }
        }),
{
    let ghost q = query@.map_values(|p: (String, String)| (p.0@, p.1@));
    let mut found: Option<&String> = None;
    let mut i: usize = 0;
    proof {
        assert(q.subrange(0, 0) =~= Seq::<(Seq<char>, Seq<char>)>::empty());
    }
    while i < query.len()
        invariant
            i <= query.len(),
            q == query@.map_values(|p: (String, String)| (p.0@, p.1@)),
            match found {
                Some(s) => last_value(q.subrange(0, i as int), key@) == Some(s@),
                None => last_value(q.subrange(0, i as int), key@) is None,
            },
        decreases query.len() - i,
    {
        let pair = &query[i];
        proof {
            assert(q.subrange(0, i + 1).drop_last() =~= q.subrange(0, i as int));
            assert(q.subrange(0, i + 1).last() == q[i as int]);
        }
        if str_eq(pair.0.as_str(), key) {
            found = Some(&pair.1);
        }
        i += 1;
    }
    proof {
        assert(q.subrange(0, q.len() as int) =~= q);
    }
    match found {
        None => Ok(None),
        Some(v) => match parse_u32(v.as_str()) {
            Some(n) => Ok(Some(n)),
            None => Err(
                OpenLibraryError::ParsingError {
                    reason: String::from_str("invalid digit found in string"),
                },
            ),
        },
    }
}

impl AuthorWorksRequest {
    /// A request for every work of an author, paging left to the server's
    /// defaults.
    pub fn try_from(identifier: OpenLibraryIdentifer) -> (r: Result<
        AuthorWorksRequest,
        OpenLibraryError,
    >)
        ensures
            r matches Ok(req) && req.identifier == identifier && req.limit is None && req.offset
                is None,
    {
        Ok(AuthorWorksRequest { identifier, limit: None, offset: None })
    }

    /// Builds a request from the pieces of a works-listing URL: the segment
    /// after the first `authors` path segment is the identifier, and the
    /// last `limit` and `offset` query parameters, where present, must be
    /// unsigned decimal numbers.
    pub fn from_url_parts(segments: &Vec<String>, query: &Vec<(String, String)>) -> (r: Result<
        AuthorWorksRequest,
        OpenLibraryError,
    >)
        ensures
            ({
                let segs = segments@.map_values(|s: String| s@);
                let q = query@.map_values(|p: (String, String)| (p.0@, p.1@));
                match r {
                    Ok(req) => {
                        &&& (authors_id_of(segs) matches Some(id) && req.identifier.spec_value()
                            == id)
                        &&& match last_value(q, "limit"@) {
                            None => req.limit is None,
                            Some(v) => u32_text(v) && req.limit == Some(dec_value(v) as u32),
                        }
                        &&& match last_value(q, "offset"@) {
                            None => req.offset is None,
                            Some(v) => u32_text(v) && req.offset == Some(dec_value(v) as u32),
                        }
                    },
                    Err(OpenLibraryError::ParsingError { reason: _ }) => authors_id_of(segs)
                        is None || (last_value(q, "limit"@) matches Some(v) && !u32_text(v)) || (
                    last_value(q, "offset"@) matches Some(v) && !u32_text(v)),
                    Err(_) => false,
                }
            }),
    {
        let ghost segs = segments@.map_values(|s: String| s@);
        let mut i: usize = 0;
        proof {
            assert(segs.skip(0) =~= segs);
        }
        let mut found = false;
        loop
            invariant_except_break
                !found,
            invariant
                i <= segments.len(),
                segs == segments@.map_values(|s: String| s@),
                authors_id_of(segs) == authors_id_of(segs.skip(i as int)),
            ensures
                i <= segments@.len(),
                authors_id_of(segs) == authors_id_of(segs.skip(i as int)),
                found ==> i < segments@.len() && segs[i as int] == "authors"@,
                !found ==> i == segments@.len(),
            decreases segments.len() - i,
        {
            if i == segments.len() {
                break;
            }
            if str_eq(segments[i].as_str(), "authors") {
                found = true;
                break;
            }
            proof {
                authors_id_skip_step(segs, i as int);
            }
            i += 1;
        }
        if !found {
            proof {
                assert(segs.skip(segs.len() as int).len() == 0);
            }
            return Err(
                OpenLibraryError::ParsingError {
                    reason: String::from_str(
                        "Invalid URL supplied, unable to determine author identifier",
                    ),
                },
            );
        }
        if i + 1 >= segments.len() {
            proof {
                assert(segs.skip(i as int).len() < 2);
            }
            return Err(
                OpenLibraryError::ParsingError {
                    reason: String::from_str(
                        "Unable to find an author identifier within the URL path",
                    ),
                },
            );
        }
        proof {
            assert(segs.skip(i as int)[0] == segs[i as int]);
            assert(segs.skip(i as int)[1] == segs[i as int + 1]);
            assert(segs.skip(i as int).len() >= 2);
        }
        let identifier = OpenLibraryIdentifer::new(segments[i + 1].clone());
        let limit = match query_u32(query, "limit") {
            Ok(v) => v,
            Err(e) => {
                return Err(e);
            },
        };
        let offset = match query_u32(query, "offset") {
            Ok(v) => v,
            Err(e) => {
                return Err(e);
            },
        };
        Ok(AuthorWorksRequest { identifier, limit, offset })
    }

    /// Builds a request from a works-listing URL, through the URL parser.
    /// The URL is opaque here, so the exact contract lives on
    /// `from_url_parts`; whatever the parser returned, a failure is always
    /// the parsing error of the taxonomy.
    pub fn from_url(url: &url::Url) -> (r: Result<AuthorWorksRequest, OpenLibraryError>)
        ensures
            r matches Err(e) ==> e matches OpenLibraryError::ParsingError { reason: _ },
    {
        let segments = match crate::urls::url_path_segments(url) {
            Some(v) => v,
            None => {
                return Err(
                    OpenLibraryError::ParsingError {
                        reason: String::from_str(
                            "Invalid URL supplied, no path segments found",
                        ),
                    },
                );
            },
        };
        let query = crate::urls::url_query_pairs(url);
        AuthorWorksRequest::from_url_parts(&segments, &query)
    }
}

/// The paging a request asks for, after the server-side defaults.
pub open spec fn effective_limit(req: AuthorWorksRequest) -> int {
    match req.limit {
        Some(l) => l as int,
        None => 50,
    }
}

pub open spec fn effective_offset(req: AuthorWorksRequest) -> int {
    match req.offset {
        Some(o) => o as int,
        None => 0,
    }
}

/// The request path of a works listing, the defaults of 50 and 0 applied:
/// `/authors/<id>/works.json?limit=<limit>&offset=<offset>`.
pub open spec fn author_works_path_of(req: AuthorWorksRequest) -> Seq<char> {
    "/authors/"@ + req.identifier.spec_value() + "/works.json?limit="@ + dec_str(
        effective_limit(req),
    ) + "&offset="@ + dec_str(effective_offset(req))
}

/// Writes the request path of a works listing.
pub fn author_works_path(req: &AuthorWorksRequest) -> (r: String)
    ensures
        r@ == author_works_path_of(*req),
{
    let mut out = String::from_str("/authors/");
    out.append(req.identifier.as_str());
    out.append("/works.json?limit=");
    let limit = match req.limit {
        Some(l) => u32_dec_string(l),
        None => u32_dec_string(50),
    };
    out.append(limit.as_str());
    out.append("&offset=");
    let offset = match req.offset {
        Some(o) => u32_dec_string(o),
        None => u32_dec_string(0),
    };
    out.append(offset.as_str());
    proof {
        assert(out@ =~= author_works_path_of(*req));
    }
    out
}

/// The works-listing response: paging links, the total count, and a page
/// of works.
#[derive(Debug)]
pub struct AuthorWorksResponse {
    pub links: Vec<(LinkName, String)>,
    pub size: u32,
    pub entries: Vec<Work>,
}

impl OpenLibraryModel for AuthorWorksResponse {

}

/// Shape of a works-listing response.
pub open spec fn author_works_response_ok(j: Json) -> bool {
    &&& match field_of(j, "links"@) {
        None => true,
        Some(Json::Obj(fs)) => forall|i: int|
            0 <= i < fs@.len() ==> (exists|n: LinkName|
                crate::models::link_name_token(n) == (#[trigger] fs@[i]).0@) && fs@[i].1 is Str,
        Some(_) => false,
    }
    &&& int_in_range(j, "size"@, 0, u32::MAX as int) is Some
    &&& match field_of(j, "entries"@) {
        None => true,
        Some(Json::Arr(v)) => forall|i: int| 0 <= i < v@.len() ==> work_ok(#[trigger] v@[i]),
        Some(_) => false,
    }
}

/// How a decoded works-listing response relates to its document.
pub open spec fn author_works_response_matches(resp: AuthorWorksResponse, j: Json) -> bool {
    &&& resp.links@.len() == obj_fields(j, "links"@).len()
    &&& forall|i: int|
        0 <= i < resp.links@.len() ==> crate::models::link_name_token((#[trigger] resp.links@[i]).0)
            == obj_fields(j, "links"@)[i].0@ && resp.links@[i].1@ == str_of(
            obj_fields(j, "links"@)[i].1,
        )
    &&& int_in_range(j, "size"@, 0, u32::MAX as int) == Some(resp.size as int)
    &&& resp.entries@.len() == arr_field(j, "entries"@).len()
    &&& forall|i: int|
        0 <= i < resp.entries@.len() ==> work_matches(
            #[trigger] resp.entries@[i],
            arr_field(j, "entries"@)[i],
        )
}

/// Decodes a works-listing response.
#[verifier::loop_isolation(false)]
pub fn decode_author_works_response(j: &Json) -> (r: Result<AuthorWorksResponse, DecodeError>)
    ensures
        match r {
            Ok(resp) => author_works_response_ok(*j) && author_works_response_matches(resp, *j),
            Err(_) => !author_works_response_ok(*j),
        },
{
    let mut links: Vec<(LinkName, String)> = Vec::new();
    match j.get("links") {
        None => {},
        Some(Json::Obj(fs)) => {
            let mut i: usize = 0;
            while i < fs.len()
                invariant
                    i <= fs.len(),
                    links@.len() == i,
                    forall|k: int|
                        0 <= k < i ==> (exists|n: LinkName|
                            crate::models::link_name_token(n) == (#[trigger] fs@[k]).0@) && fs@[k].1
                            is Str,
                    forall|k: int|
                        0 <= k < i ==> crate::models::link_name_token(
                            (#[trigger] links@[k]).0,
                        ) == fs@[k].0@ && links@[k].1@ == str_of(fs@[k].1),
                decreases fs.len() - i,
            {
                let pair = &fs[i];
                let name = match crate::models::parse_link_name(pair.0.as_str()) {
                    Some(n) => n,
                    None => {
                        return Err(
                            DecodeError::Json(JsonDecodeError { field: String::from_str("links") }),
                        );
                    },
                };
                let target = match &pair.1 {
                    Json::Str(s) => s.clone(),
                    _ => {
                        return Err(
                            DecodeError::Json(JsonDecodeError { field: String::from_str("links") }),
                        );
                    },
                };
                links.push((name, target));
                i += 1;
            }
        },
        Some(_) => {
            return Err(DecodeError::Json(JsonDecodeError { field: String::from_str("links") }));
        },
    }
    let size = match req_int(j, "size", 0, u32::MAX as i64) {
        Ok(v) => v as u32,
        Err(e) => {
            return Err(DecodeError::Json(e));
        },
    };
    let mut entries: Vec<Work> = Vec::new();
    match j.get("entries") {
        None => {},
        Some(Json::Arr(v)) => {
            let mut i: usize = 0;
            while i < v.len()
                invariant
                    i <= v.len(),
                    entries@.len() == i,
                    forall|k: int| 0 <= k < i ==> work_ok(#[trigger] v@[k]),
                    forall|k: int| 0 <= k < i ==> work_matches(#[trigger] entries@[k], v@[k]),
                decreases v.len() - i,
            {
                match decode_work(&v[i]) {
                    Ok(w) => {
                        entries.push(w);
                    },
                    Err(e) => {
                        proof {
                            assert(!work_ok(v@[i as int]));
                        }
                        return Err(e);
                    },
                }
                i += 1;
            }
        },
        Some(_) => {
            return Err(DecodeError::Json(JsonDecodeError { field: String::from_str("entries") }));
        },
    }
    Ok(AuthorWorksResponse { links, size, entries })
}

/// Parses response text and resolves a works-listing response: a
/// non-success status is the exact API error; on success, text that parses
/// to a works listing yields exactly that listing, and any other text is a
/// decoding failure.
pub fn resolve_author_works_text(status: u16, body: &str) -> (r: Result<
    AuthorWorksResponse,
    OpenLibraryError,
>)
    ensures
        status != 200 ==> (r matches Err(OpenLibraryError::ApiError { status_code, error })
            && status_code == status && error is None),
        status == 200 ==> match crate::json::parsed_json(body@) {
            Some(j) => match r {
                Ok(resp) => author_works_response_ok(j) && author_works_response_matches(resp, j),
                Err(OpenLibraryError::JsonParseError { reason: _ }) => !author_works_response_ok(
                    j,
                ),
                Err(_) => false,
            },
            None => r matches Err(OpenLibraryError::JsonParseError { reason: _ }),
        },
{
    if status != 200 {
        return Err(OpenLibraryError::ApiError { status_code: status, error: None });
    }
    match json_from_str(body) {
        Ok(j) => match decode_author_works_response(&j) {
            Ok(resp) => Ok(resp),
            Err(_) => Err(
                OpenLibraryError::JsonParseError {
                    reason: String::from_str(
                        "The payload did not match the author works schema",
                    ),
                },
            ),
        },
        Err(reason) => Err(OpenLibraryError::JsonParseError { reason }),
    }
}

/// A field the wire sometimes wraps in an object under `value`: absent or
/// null is nothing, a bare string or a `{value: string}` object is the
/// string.
pub open spec fn value_wrapped_ok(j: Json, key: Seq<char>) -> bool {
    match field_of(j, key) {
        None => true,
        Some(Json::Null) => true,
        Some(Json::Str(_)) => true,
        Some(w) => w is Obj && (field_of(w, "value"@) matches Some(v) && v is Str),
    }
}

/// The string a value-wrapped field carries.
pub open spec fn value_wrapped_val(j: Json, key: Seq<char>) -> Option<Seq<char>> {
    match field_of(j, key) {
        Some(Json::Str(s)) => Some(s@),
        Some(w) => match field_of(w, "value"@) {
            Some(Json::Str(s)) => Some(s@),
            _ => None,
        },
        None => None,
    }
}

/// Reads a value-wrapped string field.
pub fn opt_value_string(j: &Json, key: &str) -> (r: Result<Option<String>, JsonDecodeError>)
    ensures
        match r {
            Ok(Some(s)) => value_wrapped_ok(*j, key@) && value_wrapped_val(*j, key@) == Some(s@),
            Ok(None) => value_wrapped_ok(*j, key@) && value_wrapped_val(*j, key@) is None,
            Err(e) => e.field@ == key@ && !value_wrapped_ok(*j, key@),
        },
{
    match j.get(key) {
        None => Ok(None),
        Some(Json::Null) => Ok(None),
        Some(Json::Str(s)) => Ok(Some(s.clone())),
        Some(w) => {
            match w {
                Json::Obj(_) => {},
                _ => {
                    return Err(JsonDecodeError { field: String::from_str(key) });
                },
            }
            match w.get("value") {
                Some(Json::Str(s)) => Ok(Some(s.clone())),
                _ => Err(JsonDecodeError { field: String::from_str(key) }),
            }
        },
    }
}

/// An author detail record.
#[derive(Debug)]
pub struct AuthorDetails {
    pub title: Option<String>,
    pub source_records: Vec<String>,
    pub key: OpenLibraryResource,
    pub bio: Option<String>,
    pub photos: Vec<i32>,
    pub birth_date: String,
    pub personal_name: String,
    pub remote_ids: Vec<(String, String)>,
    pub entity_type: Option<String>,
    pub links: Vec<Link>,
    pub name: String,
    pub alternate_names: Vec<String>,
    /// The wikipedia URL, normalized; validated by the URL parser.
    pub wikipedia: Option<String>,
    pub latest_revision: u16,
    pub revision: u16,
    /// The creation timestamp text, unwrapped from its `value` object.
    pub created: Option<String>,
    /// The modification timestamp text, unwrapped from its `value` object.
    pub last_modified: Option<String>,
}

impl OpenLibraryModel for AuthorDetails {

}

/// Shape of an author detail record.
pub open spec fn author_details_ok(j: Json) -> bool {
    &&& crate::json::opt_str_ok(j, "title"@)
    &&& match field_of(j, "source_records"@) {
        None => true,
        Some(Json::Arr(v)) => crate::json::all_strings(v@),
        Some(_) => false,
    }
    &&& crate::models::resource_field_ok(j, "key"@)
    &&& value_wrapped_ok(j, "bio"@)
    &&& crate::json::int_array_ok(j, "photos"@, i32::MIN as int, i32::MAX as int)
    &&& field_of(j, "photos"@) is Some
    &&& crate::json::req_str_ok(j, "birth_date"@)
    &&& crate::json::req_str_ok(j, "personal_name"@)
    &&& str_map_ok(j, "remote_ids"@)
    &&& crate::json::opt_str_ok(j, "entity_type"@)
    &&& match field_of(j, "links"@) {
        Some(Json::Arr(v)) => forall|i: int|
            0 <= i < v@.len() ==> crate::models::books::link_ok(#[trigger] v@[i]),
        _ => false,
    }
    &&& crate::json::req_str_ok(j, "name"@)
    &&& crate::json::req_str_array_ok(j, "alternate_names"@)
    &&& match field_of(j, "wikipedia"@) {
        None => true,
        Some(Json::Null) => true,
        Some(Json::Str(s)) => crate::urls::normalized_url(s@) is Some,
        Some(_) => false,
    }
    &&& int_in_range(j, "latest_revision"@, 0, u16::MAX as int) is Some
    &&& int_in_range(j, "revision"@, 0, u16::MAX as int) is Some
    &&& value_wrapped_ok(j, "created"@)
    &&& value_wrapped_ok(j, "last_modified"@)
}

/// How a decoded author detail record relates to its document.
pub open spec fn author_details_matches(a: AuthorDetails, j: Json) -> bool {
    &&& match field_of(j, "title"@) {
        Some(Json::Str(s)) => (a.title matches Some(t) && t@ == s@),
        _ => a.title is None,
    }
    &&& (field_of(j, "source_records"@) is None && a.source_records@.len() == 0) || str_array_of(
        j,
        "source_records"@,
    ) == Some(a.source_records@.map_values(|s: String| s@))
    &&& parsed_resource(a.key, path_segments_of(str_field_val(j, "key"@)))
    &&& match value_wrapped_val(j, "bio"@) {
        Some(v) => (a.bio matches Some(t) && t@ == v),
        None => a.bio is None,
    }
    &&& a.photos@.map_values(|n: i32| n as int) == crate::json::int_values(
        arr_field(j, "photos"@),
    )
    &&& a.birth_date@ == str_field_val(j, "birth_date"@)
    &&& a.personal_name@ == str_field_val(j, "personal_name"@)
    &&& a.remote_ids@.len() == obj_fields(j, "remote_ids"@).len()
    &&& forall|i: int|
        0 <= i < a.remote_ids@.len() ==> (#[trigger] a.remote_ids@[i]).0@ == obj_fields(
            j,
            "remote_ids"@,
        )[i].0@ && a.remote_ids@[i].1@ == str_of(obj_fields(j, "remote_ids"@)[i].1)
    &&& match field_of(j, "entity_type"@) {
        Some(Json::Str(s)) => (a.entity_type matches Some(t) && t@ == s@),
        _ => a.entity_type is None,
    }
    &&& a.links@.len() == arr_field(j, "links"@).len()
    &&& forall|i: int|
        0 <= i < a.links@.len() ==> crate::models::books::link_matches(
            #[trigger] a.links@[i],
            arr_field(j, "links"@)[i],
        )
    &&& a.name@ == str_field_val(j, "name"@)
    &&& str_array_of(j, "alternate_names"@) == Some(
        a.alternate_names@.map_values(|s: String| s@),
    )
    &&& match field_of(j, "wikipedia"@) {
        Some(Json::Str(s)) => (a.wikipedia matches Some(t) && crate::urls::normalized_url(s@)
            == Some(t@)),
        _ => a.wikipedia is None,
    }
    &&& int_in_range(j, "latest_revision"@, 0, u16::MAX as int) == Some(a.latest_revision as int)
    &&& int_in_range(j, "revision"@, 0, u16::MAX as int) == Some(a.revision as int)
    &&& match value_wrapped_val(j, "created"@) {
        Some(v) => (a.created matches Some(t) && t@ == v),
        None => a.created is None,
    }
    &&& match value_wrapped_val(j, "last_modified"@) {
        Some(v) => (a.last_modified matches Some(t) && t@ == v),
        None => a.last_modified is None,
    }
}

/// Decodes an author detail record.
#[verifier::loop_isolation(false)]
pub fn decode_author_details(j: &Json) -> (r: Result<AuthorDetails, DecodeError>)
    ensures
        match r {
            Ok(a) => author_details_ok(*j) && author_details_matches(a, *j),
            Err(_) => !author_details_ok(*j),
        },
{
    let title = match opt_string(j, "title") {
        Ok(v) => v,
        Err(e) => {
            return Err(DecodeError::Json(e));
        },
    };
    let source_records = match str_array_or_empty(j, "source_records") {
        Ok(v) => v,
        Err(e) => {
            return Err(DecodeError::Json(e));
        },
    };
    let key = match crate::models::resource_field(j, "key") {
        Ok(k) => k,
        Err(e) => {
            return Err(e);
        },
    };
    let bio = match opt_value_string(j, "bio") {
        Ok(v) => v,
        Err(e) => {
            return Err(DecodeError::Json(e));
        },
    };
    if j.get("photos").is_none() {
        return Err(DecodeError::Json(JsonDecodeError { field: String::from_str("photos") }));
    }
    let photos = match crate::json::i32_array_or_empty(j, "photos") {
        Ok(v) => v,
        Err(e) => {
            return Err(DecodeError::Json(e));
        },
    };
    let birth_date = match req_string(j, "birth_date") {
        Ok(s) => s,
        Err(e) => {
            return Err(DecodeError::Json(e));
        },
    };
    let personal_name = match req_string(j, "personal_name") {
        Ok(s) => s,
        Err(e) => {
            return Err(DecodeError::Json(e));
        },
    };
    let remote_ids = match req_str_map(j, "remote_ids") {
        Ok(v) => v,
        Err(e) => {
            return Err(DecodeError::Json(e));
        },
    };
    let entity_type = match opt_string(j, "entity_type") {
        Ok(v) => v,
        Err(e) => {
            return Err(DecodeError::Json(e));
        },
    };
    let arr = match j.get("links") {
        Some(Json::Arr(v)) => v,
        _ => {
            return Err(DecodeError::Json(JsonDecodeError { field: String::from_str("links") }));
        },
    };
    let mut links: Vec<Link> = Vec::new();
    let mut i: usize = 0;
    while i < arr.len()
        invariant
            i <= arr.len(),
            links@.len() == i,
            forall|k: int| 0 <= k < i ==> crate::models::books::link_ok(#[trigger] arr@[k]),
            forall|k: int|
                0 <= k < i ==> crate::models::books::link_matches(
                    #[trigger] links@[k],
                    arr@[k],
                ),
        decreases arr.len() - i,
    {
        let url = match req_string(&arr[i], "url") {
            Ok(s) => s,
            Err(e) => {
                proof {
                    assert(!crate::models::books::link_ok(arr@[i as int]));
                }
                return Err(DecodeError::Json(e));
            },
        };
        let title_text = match req_string(&arr[i], "title") {
            Ok(s) => s,
            Err(e) => {
                proof {
                    assert(!crate::models::books::link_ok(arr@[i as int]));
                }
                return Err(DecodeError::Json(e));
            },
        };
        links.push(Link { url, title: title_text });
        i += 1;
    }
    let name = match req_string(j, "name") {
        Ok(s) => s,
        Err(e) => {
            return Err(DecodeError::Json(e));
        },
    };
    let alternate_names = match crate::json::req_str_array(j, "alternate_names") {
        Ok(v) => v,
        Err(e) => {
            return Err(DecodeError::Json(e));
        },
    };
    let wikipedia = match j.get("wikipedia") {
        None => None,
        Some(Json::Null) => None,
        Some(Json::Str(s)) => match crate::urls::normalize_url(s.as_str()) {
            Some(u) => Some(u),
            None => {
                return Err(
                    DecodeError::Json(JsonDecodeError { field: String::from_str("wikipedia") }),
                );
            },
        },
        Some(_) => {
            return Err(
                DecodeError::Json(JsonDecodeError { field: String::from_str("wikipedia") }),
            );
        },
    };
    let latest_revision = match req_int(j, "latest_revision", 0, u16::MAX as i64) {
        Ok(v) => v as u16,
        Err(e) => {
            return Err(DecodeError::Json(e));
        },
    };
    let revision = match req_int(j, "revision", 0, u16::MAX as i64) {
        Ok(v) => v as u16,
        Err(e) => {
            return Err(DecodeError::Json(e));
        },
    };
    let created = match opt_value_string(j, "created") {
        Ok(v) => v,
        Err(e) => {
            return Err(DecodeError::Json(e));
        },
    };
    let last_modified = match opt_value_string(j, "last_modified") {
        Ok(v) => v,
        Err(e) => {
            return Err(DecodeError::Json(e));
        },
    };
    Ok(
        AuthorDetails {
            title,
            source_records,
            key,
            bio,
            photos,
            birth_date,
            personal_name,
            remote_ids,
            entity_type,
            links,
            name,
            alternate_names,
            wikipedia,
            latest_revision,
            revision,
            created,
            last_modified,
        },
    )
}

/// Parses response text and resolves an author detail response: a
/// non-success status is the exact API error; on success, text that parses
/// to a detail record yields exactly that record, and any other text is a
/// decoding failure.
pub fn resolve_author_details_text(status: u16, body: &str) -> (r: Result<
    AuthorDetails,
    OpenLibraryError,
>)
    ensures
        status != 200 ==> (r matches Err(OpenLibraryError::ApiError { status_code, error })
            && status_code == status && error is None),
        status == 200 ==> match crate::json::parsed_json(body@) {
            Some(j) => match r {
                Ok(a) => author_details_ok(j) && author_details_matches(a, j),
                Err(OpenLibraryError::JsonParseError { reason: _ }) => !author_details_ok(j),
                Err(_) => false,
            },
            None => r matches Err(OpenLibraryError::JsonParseError { reason: _ }),
        },
{
    if status != 200 {
        return Err(OpenLibraryError::ApiError { status_code: status, error: None });
    }
    match json_from_str(body) {
        Ok(j) => match decode_author_details(&j) {
            Ok(a) => Ok(a),
            Err(_) => Err(
                OpenLibraryError::JsonParseError {
                    reason: String::from_str(
                        "The payload did not match the author details schema",
                    ),
                },
            ),
        },
        Err(reason) => Err(OpenLibraryError::JsonParseError { reason }),
    }
}
} // verus!
