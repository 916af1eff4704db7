//! Works: the logical collections of similar editions.

use vstd::prelude::*;

use crate::json::{
    arr_field, field_of, i32_array_or_empty, int_array_ok, int_values, int_in_range,
    json_from_str, req_int, req_string, str_array_of, str_array_or_empty, str_field_val, Json,
};
use crate::models::authors::{author_reference_ok, author_reference_matches, AuthorReference};
use crate::models::{OpenLibraryModel, OpenLibraryResource};
use crate::{DecodeError, JsonDecodeError, OpenLibraryError};

verus! {

/// A work: a logical collection of similar editions.
#[derive(Debug)]
pub struct Work {
    pub title: String,
    pub covers: Vec<i32>,
    pub subject_places: Vec<String>,
    pub subjects: Vec<String>,
    pub key: OpenLibraryResource,
    pub authors: Vec<AuthorReference>,
    pub latest_revision: u32,
    pub revision: u32,
}

impl OpenLibraryModel for Work {

}

/// Shape of a work record.
pub open spec fn work_ok(j: Json) -> bool {
    &&& crate::json::req_str_ok(j, "title"@)
    &&& int_array_ok(j, "covers"@, i32::MIN as int, i32::MAX as int)
    &&& match field_of(j, "subject_places"@) {
        None => true,
        Some(Json::Arr(v)) => crate::json::all_strings(v@),
        Some(_) => false,
    }
    &&& match field_of(j, "subjects"@) {
        None => true,
        Some(Json::Arr(v)) => crate::json::all_strings(v@),
        Some(_) => false,
    }
    &&& crate::models::resource_field_ok(j, "key"@)
    &&& match field_of(j, "authors"@) {
        Some(Json::Arr(v)) => forall|i: int|
            0 <= i < v@.len() ==> author_reference_ok(#[trigger] v@[i]),
        _ => false,
    }
    &&& int_in_range(j, "latest_revision"@, 0, u32::MAX as int) is Some
    &&& int_in_range(j, "revision"@, 0, u32::MAX as int) is Some
}

/// How a decoded work relates to its record.
pub open spec fn work_matches(w: Work, j: Json) -> bool {
    &&& w.title@ == str_field_val(j, "title"@)
    &&& w.covers@.map_values(|n: i32| n as int) == int_values(arr_field(j, "covers"@))
    &&& (field_of(j, "subject_places"@) is None && w.subject_places@.len() == 0) || str_array_of(
        j,
        "subject_places"@,
    ) == Some(w.subject_places@.map_values(|s: String| s@))
    &&& (field_of(j, "subjects"@) is None && w.subjects@.len() == 0) || str_array_of(
        j,
        "subjects"@,
    ) == Some(w.subjects@.map_values(|s: String| s@))
    &&& crate::models::parsed_resource(
        w.key,
        crate::models::path_segments_of(str_field_val(j, "key"@)),
    )
    &&& w.authors@.len() == arr_field(j, "authors"@).len()
    &&& forall|i: int|
        0 <= i < w.authors@.len() ==> author_reference_matches(
            #[trigger] w.authors@[i],
            arr_field(j, "authors"@)[i],
        )
    &&& int_in_range(j, "latest_revision"@, 0, u32::MAX as int) == Some(w.latest_revision as int)
    &&& int_in_range(j, "revision"@, 0, u32::MAX as int) == Some(w.revision as int)
}

/// Decodes a work record.
#[verifier::loop_isolation(false)]
pub fn decode_work(j: &Json) -> (r: Result<Work, DecodeError>)
    ensures
        match r {
            Ok(w) => work_ok(*j) && work_matches(w, *j),
            Err(_) => !work_ok(*j),
        },
{
    let title = match req_string(j, "title") {
        Ok(s) => s,
        Err(e) => {
            return Err(DecodeError::Json(e));
        },
    };
    let covers = match i32_array_or_empty(j, "covers") {
        Ok(v) => v,
        Err(e) => {
            return Err(DecodeError::Json(e));
        },
    };
    let subject_places = match str_array_or_empty(j, "subject_places") {
        Ok(v) => v,
        Err(e) => {
            return Err(DecodeError::Json(e));
        },
    };
    let subjects = match str_array_or_empty(j, "subjects") {
        Ok(v) => v,
        Err(e) => {
            return Err(DecodeError::Json(e));
        },
    };
    let key = match crate::models::resource_field(j, "key") {
        Ok(k) => k,
        Err(e) => {
            return Err(e);
        },
    };
    let arr = match j.get("authors") {
        Some(Json::Arr(v)) => v,
        _ => {
            return Err(DecodeError::Json(JsonDecodeError { field: String::from_str("authors") }));
        },
    };
    let mut authors: Vec<AuthorReference> = Vec::new();
    let mut i: usize = 0;
    while i < arr.len()
        invariant
            i <= arr.len(),
            authors@.len() == i,
            forall|k: int| 0 <= k < i ==> author_reference_ok(#[trigger] arr@[k]),
            forall|k: int|
                0 <= k < i ==> author_reference_matches(#[trigger] authors@[k], arr@[k]),
        decreases arr.len() - i,
    {
        match crate::models::authors::decode_author_reference(&arr[i]) {
            Ok(a) => {
                authors.push(a);
            },
            Err(e) => {
                proof {
                    assert(!author_reference_ok(arr@[i as int]));
                }
                return Err(e);
            },
        }
        i += 1;
    }
    let latest_revision = match req_int(j, "latest_revision", 0, u32::MAX as i64) {
        Ok(v) => v as u32,
        Err(e) => {
            return Err(DecodeError::Json(e));
        },
    };
    let revision = match req_int(j, "revision", 0, u32::MAX as i64) {
        Ok(v) => v as u32,
        Err(e) => {
            return Err(DecodeError::Json(e));
        },
    };
    Ok(Work { title, covers, subject_places, subjects, key, authors, latest_revision, revision })
}

/// Resolves a works endpoint response: a non-success status is the exact
/// API error, a success body must decode as a work record.
pub fn resolve_work(status: u16, j: &Json) -> (r: Result<Work, OpenLibraryError>)
    ensures
        status != 200 ==> (r matches Err(OpenLibraryError::ApiError { status_code, error })
            && status_code == status && error is None),
        status == 200 ==> match r {
            Ok(w) => work_ok(*j) && work_matches(w, *j),
            Err(OpenLibraryError::JsonParseError { reason: _ }) => !work_ok(*j),
            Err(_) => false,
        },
{
    if status != 200 {
        return Err(OpenLibraryError::ApiError { status_code: status, error: None });
    }
    match decode_work(j) {
        Ok(w) => Ok(w),
        Err(_) => Err(
            OpenLibraryError::JsonParseError {
                reason: String::from_str("The payload did not match the work schema"),
            },
        ),
    }
}

/// Parses response text and resolves a works endpoint response: a
/// non-success status is the exact API error; on success, text that parses
/// to a work record yields exactly that work, and any other text is a
/// decoding failure.
pub fn resolve_work_text(status: u16, body: &str) -> (r: Result<Work, OpenLibraryError>)
    ensures
        status != 200 ==> (r matches Err(OpenLibraryError::ApiError { status_code, error })
            && status_code == status && error is None),
        status == 200 ==> match crate::json::parsed_json(body@) {
            Some(j) => match r {
                Ok(w) => work_ok(j) && work_matches(w, j),
                Err(OpenLibraryError::JsonParseError { reason: _ }) => !work_ok(j),
                Err(_) => false,
            },
            None => r matches Err(OpenLibraryError::JsonParseError { reason: _ }),
        },
{
    if status != 200 {
        return Err(OpenLibraryError::ApiError { status_code: status, error: None });
    }
    match json_from_str(body) {
        Ok(j) => resolve_work(status, &j),
        Err(reason) => Err(OpenLibraryError::JsonParseError { reason }),
    }
}

} // verus!
